use nova::batch::{quad_indices, Batch, Batcher, DrawCall, TextureId, MAX_INDICES, MAX_SPRITES};

const A: Option<TextureId> = Some(TextureId(1));
const B: Option<TextureId> = Some(TextureId(2));

#[test]
fn runs_of_equal_textures_become_batches() {
    let mut b: Batcher<u32> = Batcher::new();
    for (i, t) in [A, A, B, A, A].iter().enumerate() {
        b.push(*t, i as u32);
    }
    let calls = b.draw_calls();
    assert_eq!(
        calls,
        vec![
            DrawCall { first_sprite: 0, sprite_count: 2, texture: A },
            DrawCall { first_sprite: 2, sprite_count: 1, texture: B },
            DrawCall { first_sprite: 3, sprite_count: 2, texture: A },
        ]
    );
    assert_eq!(b.sprite_slice(), &[0, 1, 2, 3, 4]);
}

#[test]
fn later_sprites_are_drawn_after_earlier_ones() {
    let mut b: Batcher<&str> = Batcher::new();
    b.push(A, "red quad at origin");
    b.push(A, "blue quad at origin");
    let calls = b.draw_calls();
    assert_eq!(calls, vec![DrawCall { first_sprite: 0, sprite_count: 2, texture: A }]);
    assert_eq!(b.sprite_slice(), &["red quad at origin", "blue quad at origin"]);
}

#[test]
fn alternating_textures_are_not_reordered() {
    let mut b: Batcher<u32> = Batcher::new();
    b.push(A, 0);
    b.push(B, 1);
    b.push(A, 2);
    let calls = b.draw_calls();
    assert_eq!(calls.len(), 3);
    assert_eq!(calls[0].texture, A);
    assert_eq!(calls[1].texture, B);
    assert_eq!(calls[2].texture, A);
    assert_eq!(calls[2].first_sprite, 2);
}

#[test]
fn overflow_splits_into_two_draw_calls() {
    let mut b: Batcher<usize> = Batcher::new();
    for i in 0..MAX_SPRITES + 1 {
        b.push(A, i);
    }
    let calls = b.draw_calls();
    assert_eq!(
        calls,
        vec![
            DrawCall { first_sprite: 0, sprite_count: MAX_SPRITES, texture: A },
            DrawCall { first_sprite: MAX_SPRITES, sprite_count: 1, texture: A },
        ]
    );
}

#[test]
fn overflow_split_follows_batches() {
    let mut b: Batcher<usize> = Batcher::new();
    b.push(B, 0);
    for i in 0..2 * MAX_SPRITES + 5 {
        b.push(A, i + 1);
    }
    let calls = b.draw_calls();
    assert_eq!(
        calls,
        vec![
            DrawCall { first_sprite: 0, sprite_count: 1, texture: B },
            DrawCall { first_sprite: 1, sprite_count: MAX_SPRITES, texture: A },
            DrawCall { first_sprite: 1 + MAX_SPRITES, sprite_count: MAX_SPRITES, texture: A },
            DrawCall { first_sprite: 1 + 2 * MAX_SPRITES, sprite_count: 5, texture: A },
        ]
    );
}

#[test]
fn untextured_degenerate_rect_is_one_plain_draw() {
    let mut b: Batcher<[i32; 4]> = Batcher::new();
    b.push(None, [5, 5, 0, 0]);
    let calls = b.draw_calls();
    assert_eq!(calls, vec![DrawCall { first_sprite: 0, sprite_count: 1, texture: None }]);
    b.clear();
    assert!(b.draw_calls().is_empty());
    assert_eq!(b.len(), 0);
}

#[test]
fn plain_and_textured_sprites_make_separate_batches() {
    let mut b: Batcher<u8> = Batcher::new();
    b.push(None, 0);
    b.push(A, 1);
    b.push(None, 2);
    assert_eq!(b.draw_calls().len(), 3);
}

#[test]
fn empty_batcher_draws_nothing() {
    let b: Batcher<u8> = Batcher::new();
    assert!(b.draw_calls().is_empty());
}

#[test]
fn clear_starts_a_new_frame() {
    let mut b: Batcher<u8> = Batcher::new();
    b.push(A, 0);
    b.clear();
    b.push(B, 1);
    assert_eq!(b.draw_calls(), vec![DrawCall { first_sprite: 0, sprite_count: 1, texture: B }]);
    let batch = Batch { sprites: 1, texture: B };
    assert_eq!(batch.sprites, b.len());
}

#[test]
fn index_pattern_names_each_quads_corners() {
    assert_eq!(quad_indices(2), vec![0, 1, 2, 2, 3, 0, 4, 5, 6, 6, 7, 4]);
    let all = quad_indices(MAX_SPRITES);
    assert_eq!(all.len(), MAX_INDICES);
    assert_eq!(all[MAX_INDICES - 1], 4 * (MAX_SPRITES as u32 - 1));
    assert!(quad_indices(0).is_empty());
}
