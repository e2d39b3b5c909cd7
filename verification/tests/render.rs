use rust_space_invader_game::frame::new_frame;
use rust_space_invader_game::render::{render, Color, DrawOp, Renderer};
use rust_space_invader_game::{NUM_COLUMNS, NUM_ROWS};

fn puts(ops: &[DrawOp]) -> usize {
    ops.iter().filter(|op| matches!(op, DrawOp::Put { .. })).count()
}

#[test]
fn equal_frames_give_no_write() {
    let mut last = new_frame();
    let mut current = new_frame();
    assert!(last.set(3, 4, '#'));
    assert!(current.set(3, 4, '#'));
    let ops = render(&last, &current, false);
    assert_eq!(ops, vec![DrawOp::Flush]);
    assert_eq!(puts(&ops), 0);
}

#[test]
fn forced_rendering_writes_every_cell() {
    let mut last = new_frame();
    let current = new_frame();
    assert!(last.set(3, 4, '#'));
    for (a, b) in [(&last, &current), (&current, &last), (&last, &last)] {
        let ops = render(a, b, true);
        assert_eq!(puts(&ops), NUM_COLUMNS * NUM_ROWS);
        assert_eq!(puts(&ops), 800);
        assert_eq!(ops.len(), 804);
    }
}

#[test]
fn forced_rendering_clears_first_and_flushes_last() {
    let mut current = new_frame();
    assert!(current.set(0, 1, '#'));
    let ops = render(&new_frame(), &current, true);
    assert_eq!(ops[0], DrawOp::SetBackground(Color::Blue));
    assert_eq!(ops[1], DrawOp::Clear);
    assert_eq!(ops[2], DrawOp::SetBackground(Color::Black));
    assert_eq!(ops[3], DrawOp::Put { x: 0, y: 0, glyph: ' ' });
    assert_eq!(ops[4], DrawOp::Put { x: 0, y: 1, glyph: '#' });
    assert_eq!(ops[3 + NUM_ROWS], DrawOp::Put { x: 1, y: 0, glyph: ' ' });
    assert_eq!(ops[802], DrawOp::Put { x: 39, y: 19, glyph: ' ' });
    assert_eq!(ops[803], DrawOp::Flush);
}

#[test]
fn only_changed_cells_are_written() {
    let mut last = new_frame();
    let mut current = new_frame();
    assert!(last.set(3, 4, '#'));
    assert!(last.set(5, 5, 'x'));
    assert!(last.set(9, 0, 'A'));
    assert!(current.set(5, 5, 'x'));
    assert!(current.set(9, 0, '|'));
    assert!(current.set(2, 19, 'A'));
    assert!(current.set(2, 1, 'B'));
    let ops = render(&last, &current, false);
    assert_eq!(
        ops,
        vec![
            DrawOp::Put { x: 2, y: 1, glyph: 'B' },
            DrawOp::Put { x: 2, y: 19, glyph: 'A' },
            DrawOp::Put { x: 3, y: 4, glyph: ' ' },
            DrawOp::Put { x: 9, y: 0, glyph: '|' },
            DrawOp::Flush,
        ]
    );
}

#[test]
fn writes_turn_the_old_frame_into_the_new_one() {
    let mut last = new_frame();
    let mut current = new_frame();
    for k in 0..40 {
        assert!(last.set(k, (k * 7) % 20, 'x'));
        assert!(current.set((k * 3) % 40, k % 20, 'y'));
    }
    let mut screen = new_frame();
    for k in 0..40 {
        assert!(screen.set(k, (k * 7) % 20, 'x'));
    }
    for op in render(&last, &current, false) {
        if let DrawOp::Put { x, y, glyph } = op {
            assert!(screen.set(x as usize, y as usize, glyph));
        }
    }
    for x in 0..NUM_COLUMNS {
        for y in 0..NUM_ROWS {
            assert_eq!(screen.get(x, y), current.get(x, y));
        }
    }
}

#[test]
fn renderer_starts_with_a_full_repaint() {
    let (_renderer, ops) = Renderer::start();
    assert_eq!(ops.len(), 804);
    assert_eq!(ops[0], DrawOp::SetBackground(Color::Blue));
    assert_eq!(puts(&ops), 800);
    assert!(ops[3..803].iter().all(|op| matches!(op, DrawOp::Put { glyph: ' ', .. })));
    assert_eq!(ops[803], DrawOp::Flush);
}

#[test]
fn renderer_remembers_the_last_frame() {
    let (mut renderer, _) = Renderer::start();
    let mut first = new_frame();
    assert!(first.set(20, 19, 'A'));
    assert_eq!(
        renderer.present(first),
        vec![DrawOp::Put { x: 20, y: 19, glyph: 'A' }, DrawOp::Flush]
    );
    let mut second = new_frame();
    assert!(second.set(20, 19, 'A'));
    assert_eq!(renderer.present(second), vec![DrawOp::Flush]);
    let mut third = new_frame();
    assert!(third.set(21, 19, 'A'));
    assert_eq!(
        renderer.present(third),
        vec![
            DrawOp::Put { x: 20, y: 19, glyph: ' ' },
            DrawOp::Put { x: 21, y: 19, glyph: 'A' },
            DrawOp::Flush
        ]
    );
}
