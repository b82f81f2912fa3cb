use tetris_engine::generator::PieceTypeGenerator;
use tetris_engine::piece::PieceType;

#[test]
fn a_new_generator_has_handed_out_nothing() {
    assert_eq!(PieceTypeGenerator::new().last, 0xff);
}

#[test]
fn the_first_draw_is_used_when_it_differs_from_the_last() {
    let mut gen = PieceTypeGenerator::new();
    assert_eq!(gen.gen(0), PieceType::I);
    assert_eq!(gen.last, 0);
    assert_eq!(gen.gen(8), PieceType::O);
    assert_eq!(gen.last, 1);
    assert_eq!(gen.gen(13), PieceType::T);
    assert_eq!(gen.last, 6);
    assert_eq!(gen.gen(2), PieceType::J);
    assert_eq!(gen.gen(3), PieceType::L);
    assert_eq!(gen.gen(4), PieceType::S);
    assert_eq!(gen.gen(5), PieceType::Z);
    assert_eq!(gen.last, 5);
}

#[test]
fn the_second_draw_is_used_when_the_first_repeats() {
    let mut gen = PieceTypeGenerator { last: 1 };
    // first draw 1 repeats; second draw is (1 / 8) % 7 = 0
    assert_eq!(gen.gen(1), PieceType::I);
    assert_eq!(gen.last, 0);
    let mut gen = PieceTypeGenerator { last: 3 };
    // 3 + 7 * 8 = 59: first draw 3 repeats; second draw is (59 / 8) % 7 = 0
    assert_eq!(gen.gen(59), PieceType::I);
    let mut gen = PieceTypeGenerator { last: 6 };
    // 6 + 7 * 6 = 48: first draw 6 repeats; second draw is (48 / 8) % 7 = 6
    assert_eq!(gen.gen(48), PieceType::T);
    assert_eq!(gen.last, 6);
}

#[test]
fn a_repeat_comes_only_when_both_draws_repeat() {
    for last in 0u8..7 {
        for rand in 0u32..5000 {
            let mut gen = PieceTypeGenerator { last };
            let t = gen.gen(rand);
            let first = rand % 7;
            let second = (rand / 8) % 7;
            let expected = if first != last as u32 { first } else { second };
            assert_eq!(t.ordinal() as u32, expected);
            assert_eq!(gen.last as u32, expected);
            if first != last as u32 || second != last as u32 {
                assert_ne!(t.ordinal(), last);
            } else {
                assert_eq!(t.ordinal(), last);
            }
        }
    }
}

#[test]
fn both_draws_repeating_repeats_the_type() {
    let mut gen = PieceTypeGenerator::new();
    assert_eq!(gen.gen(0), PieceType::I);
    assert_eq!(gen.gen(0), PieceType::I);
}

#[test]
fn large_random_numbers() {
    let mut gen = PieceTypeGenerator::new();
    // u32::MAX % 7 = 3
    assert_eq!(gen.gen(u32::MAX), PieceType::L);
    // first draw 3 repeats; (u32::MAX / 8) % 7 = 536870911 % 7 = 3
    assert_eq!(gen.gen(u32::MAX), PieceType::L);
    // 4294967289 % 7 = 4; then first draw 4 repeats; 536870911 % 7 = 3
    assert_eq!(gen.gen(4294967289), PieceType::S);
    assert_eq!(gen.gen(4294967289), PieceType::L);
}
