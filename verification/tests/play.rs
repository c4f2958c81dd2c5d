use blocks::level::{next_level, Block, Level};
use blocks::play::{Cue, Direction, Key, Outcome, PlayMode, PlayState};

// A running level with the given blocks, its paddle in the middle.
fn running(cells: &[(i32, i32)], ball: (i64, i64), velocity: (i64, i64)) -> PlayState {
    let blocks: Vec<Block> = cells.iter().map(|c| Block::new(c.0, c.1)).collect();
    let play = PlayState {
        mode: PlayMode::Running,
        level: Level { index: 0, blocks, ball_speed: 5_000_000 },
        paddle: 400_000_000,
        ball,
        ramp: (1_000_000, 1_000_000),
        velocity,
        score: 0,
    };
    assert!(play.is_wf());
    play
}

fn cells(play: &PlayState) -> Vec<(i32, i32)> {
    play.level.blocks.iter().map(|b| (b.i, b.j)).collect()
}

#[test]
fn a_level_begins_with_the_ball_on_the_paddle() {
    let play = PlayState::new(0, 7);
    assert_eq!(play.mode, PlayMode::Pending);
    assert_eq!(play.level.index, 0);
    assert_eq!(play.level.blocks.len(), 9);
    assert_eq!(play.level.ball_speed, 5_000_000);
    assert_eq!(play.paddle, 400_000_000);
    assert_eq!(play.ball, (400_000_000, 390_000_000));
    assert_eq!(play.ramp, (1_000_000, 1_000_000));
    assert_eq!(play.velocity, (0, -5_000_000));
    assert_eq!(play.score, 7);
    assert!(play.is_wf());
    assert_eq!(PlayState::new(7, 0).velocity, (0, -10_000_000));
}

#[test]
fn launch_starts_a_pending_ball_only() {
    let mut play = PlayState::new(0, 0);
    play.launch();
    assert_eq!(play.mode, PlayMode::Running);
    assert_eq!(play.ball, (400_000_000, 390_000_000));
    play.launch();
    assert_eq!(play.mode, PlayMode::Running);
    for mode in [PlayMode::Lost, PlayMode::Won] {
        play.mode = mode;
        play.launch();
        assert_eq!(play.mode, mode);
    }
}

#[test]
fn a_pending_ball_does_not_move() {
    let mut play = PlayState::new(0, 0);
    assert_eq!(play.advance_frame().cue, Cue::Silent);
    assert_eq!(play.ball, (400_000_000, 390_000_000));
    assert_eq!(play.mode, PlayMode::Pending);
}

#[test]
fn a_frame_moves_the_ball_by_its_velocity() {
    let mut play = PlayState::new(0, 0);
    play.launch();
    assert_eq!(play.advance_frame().cue, Cue::Silent);
    assert_eq!(play.ball, (400_000_000, 385_000_000));
    assert_eq!(play.velocity, (0, -5_000_000));
    assert_eq!(play.advance_frame().cue, Cue::Silent);
    assert_eq!(play.ball, (400_000_000, 380_000_000));
    assert_eq!(play.level.blocks.len(), 9);
}

#[test]
fn the_last_block_wins_the_level() {
    let mut play = running(&[(0, 0)], (20_000_000, 30_000_000), (0, -5_000_000));
    let hit = play.advance_frame();
    assert_eq!(hit.cue, Cue::BlockHit);
    assert_eq!(hit.destroyed, vec![Block::new(0, 0)]);
    assert_eq!(play.ball, (20_000_000, 25_000_000));
    assert_eq!(play.velocity, (0, 5_000_000));
    assert!(play.level.blocks.is_empty());
    assert_eq!(play.score, 1);
    assert_eq!(play.mode, PlayMode::Won);
    assert_eq!(play.outcome(), Some(Outcome::Won { next: 1, score: 1 }));
}

#[test]
fn a_side_wall_turns_the_ball_round() {
    let mut play = running(&[(19, 0)], (12_000_000, 200_000_000), (-4_000_000, 3_000_000));
    assert_eq!(play.advance_frame().cue, Cue::Silent);
    assert_eq!(play.ball, (8_000_000, 203_000_000));
    assert_eq!(play.velocity, (4_000_000, 3_000_000));
    assert_eq!(play.advance_frame().cue, Cue::Silent);
    assert_eq!(play.ball, (12_000_000, 206_000_000));
    assert_eq!(play.velocity, (4_000_000, 3_000_000));

    let mut play = running(&[(0, 0)], (788_000_000, 200_000_000), (3_000_000, -4_000_000));
    play.advance_frame();
    assert_eq!(play.ball, (791_000_000, 196_000_000));
    assert_eq!(play.velocity, (-3_000_000, -4_000_000));
    let mut play = running(&[(0, 0)], (787_000_000, 200_000_000), (3_000_000, -4_000_000));
    play.advance_frame();
    assert_eq!(play.velocity, (-3_000_000, -4_000_000));
    let mut play = running(&[(0, 0)], (786_999_000, 200_000_000), (3_000_000, -4_000_000));
    play.advance_frame();
    assert_eq!(play.velocity, (3_000_000, -4_000_000));
}

#[test]
fn the_top_wall_turns_the_ball_round() {
    let mut play = running(&[(19, 4)], (200_000_000, 12_000_000), (3_000_000, -4_000_000));
    assert_eq!(play.advance_frame().cue, Cue::Silent);
    assert_eq!(play.ball, (203_000_000, 8_000_000));
    assert_eq!(play.velocity, (3_000_000, 4_000_000));
    assert_eq!(play.level.blocks.len(), 1);
    assert_eq!(play.advance_frame().cue, Cue::Silent);
    assert_eq!(play.ball, (206_000_000, 12_000_000));
    assert_eq!(play.velocity, (3_000_000, 4_000_000));
}

#[test]
fn a_side_wall_comes_before_the_top_wall() {
    let mut play = running(&[(19, 4)], (12_000_000, 12_000_000), (-4_000_000, -3_000_000));
    play.advance_frame();
    assert_eq!(play.ball, (8_000_000, 9_000_000));
    assert_eq!(play.velocity, (4_000_000, -3_000_000));
    // the ball is still above the top line one frame later
    play.advance_frame();
    assert_eq!(play.ball, (12_000_000, 6_000_000));
    assert_eq!(play.velocity, (4_000_000, 3_000_000));
}

#[test]
fn a_wall_comes_before_the_blocks() {
    let mut play = running(&[(0, 1), (5, 5)], (12_000_000, 30_000_000), (-4_000_000, -3_000_000));
    let hit = play.advance_frame();
    assert_eq!(hit.cue, Cue::Silent);
    assert!(hit.destroyed.is_empty());
    assert_eq!(play.velocity, (4_000_000, -3_000_000));
    assert_eq!(play.level.blocks.len(), 2);
    assert_eq!(play.score, 0);
}

#[test]
fn below_the_floor_line_the_level_is_lost() {
    let mut play = running(&[(0, 0)], (200_000_000, 409_000_000), (0, 5_000_000));
    assert_eq!(play.advance_frame().cue, Cue::Silent);
    assert_eq!(play.ball, (200_000_000, 414_000_000));
    assert_eq!(play.velocity, (0, 5_000_000));
    assert_eq!(play.mode, PlayMode::Lost);
    assert_eq!(play.outcome(), Some(Outcome::Lost { score: 0 }));

    // on the line the ball is still in play
    let mut play = running(&[(0, 0)], (200_000_000, 405_000_000), (0, 5_000_000));
    play.advance_frame();
    assert_eq!(play.ball, (200_000_000, 410_000_000));
    assert_eq!(play.mode, PlayMode::Running);
    play.advance_frame();
    assert_eq!(play.mode, PlayMode::Lost);
}

#[test]
fn the_paddle_sends_the_ball_back() {
    // paddle at 400, struck at 410: half a unit to the right
    let mut play = running(&[(0, 0)], (410_000_000, 388_000_000), (0, 5_000_000));
    assert_eq!(play.advance_frame().cue, Cue::PaddleHit);
    assert_eq!(play.ball, (410_000_000, 393_000_000));
    assert_eq!(play.velocity, (500_000, -4_974_937));
    assert_eq!(play.mode, PlayMode::Running);
    assert_eq!(play.score, 0);
    assert_eq!(play.advance_frame().cue, Cue::Silent);
    assert_eq!(play.ball, (410_500_000, 388_025_063));
}

#[test]
fn the_paddle_reaches_a_margin_beyond_its_ends() {
    let mut play = running(&[(0, 0)], (460_000_000, 388_000_000), (0, 5_000_000));
    assert_eq!(play.advance_frame().cue, Cue::PaddleHit);
    assert_eq!(play.velocity, (3_000_000, -4_000_000));
    let mut play = running(&[(0, 0)], (460_001_000, 388_000_000), (0, 5_000_000));
    assert_eq!(play.advance_frame().cue, Cue::Silent);
    assert_eq!(play.velocity, (0, 5_000_000));
    let mut play = running(&[(0, 0)], (340_000_000, 388_000_000), (0, 5_000_000));
    assert_eq!(play.advance_frame().cue, Cue::PaddleHit);
    assert_eq!(play.velocity, (-3_000_000, -4_000_000));
    let mut play = running(&[(0, 0)], (339_999_000, 388_000_000), (0, 5_000_000));
    assert_eq!(play.advance_frame().cue, Cue::Silent);
}

#[test]
fn the_paddle_lets_a_rising_ball_pass() {
    let mut play = running(&[(0, 0)], (400_000_000, 400_000_000), (0, -5_000_000));
    assert_eq!(play.advance_frame().cue, Cue::Silent);
    assert_eq!(play.ball, (400_000_000, 395_000_000));
    assert_eq!(play.velocity, (0, -5_000_000));
    // and a falling ball that is not yet down at the paddle's line
    let mut play = running(&[(0, 0)], (400_000_000, 385_000_000), (0, 5_000_000));
    assert_eq!(play.advance_frame().cue, Cue::Silent);
    assert_eq!(play.ball, (400_000_000, 390_000_000));
    assert_eq!(play.velocity, (0, 5_000_000));
    assert_eq!(play.advance_frame().cue, Cue::PaddleHit);
    assert_eq!(play.velocity, (0, -5_000_000));
}

#[test]
fn every_block_struck_goes_and_counts() {
    let mut play = running(&[(0, 0), (1, 0), (10, 0)], (40_000_000, 30_000_000), (0, -5_000_000));
    play.score = 40;
    let hit = play.advance_frame();
    assert_eq!(hit.cue, Cue::BlockHit);
    assert_eq!(hit.destroyed, vec![Block::new(0, 0), Block::new(1, 0)]);
    assert_eq!(cells(&play), vec![(10, 0)]);
    assert_eq!(play.score, 42);
    assert_eq!(play.velocity, (0, 5_000_000));
    assert_eq!(play.mode, PlayMode::Running);
    assert_eq!(play.outcome(), None);
}

#[test]
fn the_last_block_struck_gives_the_bounce() {
    // the block above is struck from below, the block to the left from the right
    let mut play = running(&[(1, 1), (0, 2), (10, 0)], (51_000_000, 52_000_000), (-3_000_000, -4_000_000));
    assert_eq!(play.advance_frame().cue, Cue::BlockHit);
    assert_eq!(play.ball, (48_000_000, 48_000_000));
    assert_eq!(cells(&play), vec![(10, 0)]);
    assert_eq!(play.score, 2);
    assert_eq!(play.velocity, (3_000_000, -4_000_000));

    let mut play = running(&[(0, 2), (1, 1), (10, 0)], (51_000_000, 52_000_000), (-3_000_000, -4_000_000));
    assert_eq!(play.advance_frame().cue, Cue::BlockHit);
    assert_eq!(cells(&play), vec![(10, 0)]);
    assert_eq!(play.score, 2);
    assert_eq!(play.velocity, (-3_000_000, 4_000_000));
}

#[test]
fn a_ball_in_the_open_keeps_its_course() {
    let mut play = running(&[(0, 0), (3, 3)], (400_000_000, 200_000_000), (3_000_000, 4_000_000));
    let hit = play.advance_frame();
    assert_eq!(hit.cue, Cue::Silent);
    assert!(hit.destroyed.is_empty());
    assert_eq!(play.ball, (403_000_000, 204_000_000));
    assert_eq!(play.velocity, (3_000_000, 4_000_000));
    assert_eq!(cells(&play), vec![(0, 0), (3, 3)]);
    assert_eq!(play.score, 0);
}

#[test]
fn a_level_that_has_ended_does_not_change() {
    for mode in [PlayMode::Lost, PlayMode::Won] {
        let mut play = running(&[(0, 0)], (20_000_000, 30_000_000), (0, -5_000_000));
        play.mode = mode;
        play.score = 3;
        for _ in 0..5 {
            assert_eq!(play.advance_frame().cue, Cue::Silent);
            assert_eq!(play.mode, mode);
            assert_eq!(play.ball, (20_000_000, 30_000_000));
            assert_eq!(play.velocity, (0, -5_000_000));
            assert_eq!(play.paddle, 400_000_000);
            assert_eq!(play.ramp, (1_000_000, 1_000_000));
            assert_eq!(play.score, 3);
            assert_eq!(cells(&play), vec![(0, 0)]);
        }
    }
}

#[test]
fn the_paddle_moves_by_its_speed() {
    let mut play = PlayState::new(0, 0);
    play.move_paddle(Direction::Left, false);
    assert_eq!(play.paddle, 392_000_000);
    assert_eq!(play.ball, (392_000_000, 390_000_000));
    assert_eq!(play.ramp, (1_000_000, 1_000_000));
    play.move_paddle(Direction::Right, false);
    play.move_paddle(Direction::Right, false);
    assert_eq!(play.paddle, 408_000_000);
    assert_eq!(play.ball, (408_000_000, 390_000_000));
}

#[test]
fn a_held_key_moves_the_paddle_faster() {
    let mut play = PlayState::new(0, 0);
    play.move_paddle(Direction::Left, false);
    let mut at = 392_000_000;
    for ramp in [1_200_000, 1_440_000, 1_728_000, 2_073_600, 2_488_320] {
        play.move_paddle(Direction::Left, true);
        at -= 8 * ramp;
        assert_eq!(play.ramp, (ramp, 1_000_000));
        assert_eq!(play.paddle, at);
        assert_eq!(play.ball.0, at);
    }
    // the other key starts over
    play.move_paddle(Direction::Right, true);
    assert_eq!(play.ramp, (1_000_000, 1_200_000));
    assert_eq!(play.paddle, at + 9_600_000);
    play.move_paddle(Direction::Left, true);
    assert_eq!(play.ramp, (1_200_000, 1_000_000));
    play.move_paddle(Direction::Left, false);
    assert_eq!(play.ramp, (1_000_000, 1_000_000));
}

#[test]
fn the_paddle_stops_at_its_limits() {
    let mut play = PlayState::new(0, 0);
    play.paddle = 52_000_000;
    play.ball.0 = 52_000_000;
    assert!(play.is_wf());
    play.move_paddle(Direction::Left, false);
    assert_eq!(play.paddle, 50_000_000);
    assert_eq!(play.ball, (50_000_000, 390_000_000));
    // at its limit the paddle stays, and the ramp grows or falls as ever
    play.ramp = (2_000_000, 1_000_000);
    assert!(play.is_wf());
    play.move_paddle(Direction::Left, true);
    assert_eq!(play.paddle, 50_000_000);
    assert_eq!(play.ball, (50_000_000, 390_000_000));
    assert_eq!(play.ramp, (2_400_000, 1_000_000));
    play.move_paddle(Direction::Left, false);
    assert_eq!(play.paddle, 50_000_000);
    assert_eq!(play.ball, (50_000_000, 390_000_000));
    assert_eq!(play.ramp, (1_000_000, 1_000_000));
    play.move_paddle(Direction::Left, true);
    assert_eq!(play.ramp, (1_200_000, 1_000_000));
    play.move_paddle(Direction::Right, false);
    assert_eq!(play.paddle, 58_000_000);
    assert_eq!(play.ramp, (1_000_000, 1_000_000));

    play.paddle = 749_999_000;
    play.ball.0 = 749_999_000;
    assert!(play.is_wf());
    play.move_paddle(Direction::Right, true);
    assert_eq!(play.paddle, 750_000_000);
    assert_eq!(play.ball, (750_000_000, 390_000_000));
    assert_eq!(play.ramp, (1_000_000, 1_200_000));
    play.move_paddle(Direction::Right, true);
    assert_eq!(play.paddle, 750_000_000);
    assert_eq!(play.ramp, (1_000_000, 1_440_000));
    assert!(play.is_wf());
}

#[test]
fn a_fresh_press_at_the_limit_sets_the_ramp_back() {
    let mut play = running(&[(0, 0)], (300_000_000, 200_000_000), (0, 5_000_000));
    play.paddle = 50_000_000;
    play.ramp = (2_000_000, 1_000_000);
    assert!(play.is_wf());
    play.key_down_event(Key::Left, false);
    assert_eq!(play.paddle, 50_000_000);
    assert_eq!(play.ramp, (1_000_000, 1_000_000));
    assert_eq!(play.ball, (300_000_000, 200_000_000));
    assert_eq!(play.mode, PlayMode::Running);
}

#[test]
fn a_ramp_stops_growing_at_a_hundred_thousand() {
    let mut play = PlayState::new(0, 0);
    play.paddle = 50_000_000;
    play.ball.0 = 50_000_000;
    let mut last = 1_000_000;
    for _ in 0..63 {
        play.move_paddle(Direction::Left, true);
        assert_eq!(play.ramp.0, last * 6 / 5);
        last = play.ramp.0;
        assert!(play.is_wf());
    }
    assert_eq!(last, 97_368_440_450);
    for _ in 0..5 {
        play.move_paddle(Direction::Left, true);
        assert_eq!(play.ramp, (100_000_000_000, 1_000_000));
        assert_eq!(play.paddle, 50_000_000);
        assert_eq!(play.ball, (50_000_000, 390_000_000));
        assert!(play.is_wf());
    }
    play.move_paddle(Direction::Right, true);
    assert_eq!(play.ramp, (1_000_000, 1_200_000));
    assert_eq!(play.paddle, 59_600_000);
}

#[test]
fn a_key_held_all_the_way_across() {
    let mut play = PlayState::new(0, 0);
    for _ in 0..40 {
        play.move_paddle(Direction::Right, false);
    }
    play.move_paddle(Direction::Right, false);
    play.move_paddle(Direction::Right, false);
    play.move_paddle(Direction::Right, false);
    play.move_paddle(Direction::Right, false);
    assert_eq!(play.paddle, 750_000_000);
    play.move_paddle(Direction::Left, false);
    let mut presses = 1;
    while play.paddle > 50_000_000 {
        play.move_paddle(Direction::Left, true);
        presses += 1;
        assert!(play.is_wf());
        assert!(play.ramp.0 < 19_000_000);
    }
    assert_eq!(presses, 17);
    assert_eq!(play.ramp, (18_488_415, 1_000_000));
    assert_eq!(play.ball, (50_000_000, 390_000_000));
    play.move_paddle(Direction::Left, true);
    assert_eq!(play.ramp, (22_186_098, 1_000_000));
    assert_eq!(play.ball, (50_000_000, 390_000_000));
}

#[test]
fn a_ball_in_flight_does_not_follow_the_paddle() {
    let mut play = PlayState::new(0, 0);
    play.launch();
    play.move_paddle(Direction::Right, false);
    assert_eq!(play.paddle, 408_000_000);
    assert_eq!(play.ball, (400_000_000, 390_000_000));
    play.mode = PlayMode::Won;
    play.move_paddle(Direction::Right, false);
    assert_eq!(play.paddle, 416_000_000);
    assert_eq!(play.ball, (400_000_000, 390_000_000));
}

#[test]
fn a_lost_level_ignores_the_paddle_keys() {
    let mut play = PlayState::new(0, 0);
    play.launch();
    play.mode = PlayMode::Lost;
    play.ramp = (1_000_000, 1_200_000);
    play.move_paddle(Direction::Right, true);
    play.move_paddle(Direction::Left, false);
    assert_eq!(play.paddle, 400_000_000);
    assert_eq!(play.ramp, (1_000_000, 1_200_000));
}

#[test]
fn keys_launch_and_move() {
    let mut play = PlayState::new(0, 0);
    play.key_down_event(Key::Other, false);
    assert_eq!(play.mode, PlayMode::Pending);
    assert_eq!(play.paddle, 400_000_000);
    play.key_down_event(Key::Left, false);
    assert_eq!(play.paddle, 392_000_000);
    play.key_down_event(Key::Right, false);
    play.key_down_event(Key::Right, true);
    assert_eq!(play.paddle, 409_600_000);
    assert_eq!(play.ball, (409_600_000, 390_000_000));
    play.key_down_event(Key::Space, false);
    assert_eq!(play.mode, PlayMode::Running);
    play.key_down_event(Key::Space, true);
    assert_eq!(play.mode, PlayMode::Running);
}

#[test]
fn how_a_level_ends() {
    let mut play = PlayState::new(4, 12);
    assert_eq!(play.outcome(), None);
    play.launch();
    assert_eq!(play.outcome(), None);
    play.mode = PlayMode::Lost;
    assert_eq!(play.outcome(), Some(Outcome::Lost { score: 12 }));
    play.mode = PlayMode::Won;
    assert_eq!(play.outcome(), Some(Outcome::Won { next: 5, score: 12 }));
}

#[test]
fn states_that_are_not_well_formed() {
    let good = || running(&[(0, 0), (1, 0)], (400_000_000, 200_000_000), (3_000_000, 4_000_000));
    let mut play = good();
    play.velocity = (5_001_000, 0);
    assert!(!play.is_wf());
    let mut play = good();
    play.velocity = (0, -5_001_000);
    assert!(!play.is_wf());
    let mut play = good();
    play.paddle = 49_999_000;
    assert!(!play.is_wf());
    let mut play = good();
    play.paddle = 750_001_000;
    assert!(!play.is_wf());
    let mut play = good();
    play.ramp = (999_999, 1_000_000);
    assert!(!play.is_wf());
    let mut play = good();
    play.ramp = (1_000_000, 100_000_000_001);
    assert!(!play.is_wf());
    play.ramp = (1_000_000, 100_000_000_000);
    assert!(play.is_wf());
    let mut play = good();
    play.score = u32::MAX - 1;
    assert!(!play.is_wf());
    play.score = u32::MAX - 2;
    assert!(play.is_wf());
    let mut play = good();
    play.mode = PlayMode::Pending;
    assert!(!play.is_wf());
    play.ball = (400_000_000, 390_000_000);
    assert!(play.is_wf());
    let mut play = good();
    play.level.blocks.push(Block::new(0, 0));
    assert!(!play.is_wf());
    let mut play = good();
    play.ball.1 = -1_000_000_000_000_000_001;
    assert!(!play.is_wf());
    play.ball.1 = -1_000_000_000_000_000_000;
    assert!(play.is_wf());
}

#[test]
fn a_ball_at_the_edge_of_the_numbers_goes_no_farther() {
    let mut play = running(&[(0, 0)], (400_000_000, 200_000_000), (3_000_000, -4_000_000));
    play.ball.1 = -999_999_999_999_999_999;
    assert!(play.is_wf());
    assert_eq!(play.advance_frame().cue, Cue::Silent);
    assert_eq!(play.ball, (403_000_000, -1_000_000_000_000_000_000));
    assert_eq!(play.velocity, (3_000_000, 4_000_000));
    assert!(play.is_wf());
    play.advance_frame();
    assert_eq!(play.ball, (406_000_000, -999_999_999_996_000_000));
    assert_eq!(play.velocity, (3_000_000, -4_000_000));
}

#[test]
fn whether_the_next_frame_wins() {
    let play = running(&[(0, 0)], (20_000_000, 35_000_001), (0, -5_000_000));
    assert!(!play.next_frame_wins());
    let mut play = running(&[(0, 0)], (20_000_000, 35_000_000), (0, -5_000_000));
    assert!(play.next_frame_wins());
    play.advance_frame();
    assert_eq!(play.mode, PlayMode::Won);
    assert!(!play.next_frame_wins());
    let play = running(&[(0, 0), (1, 0)], (40_000_000, 30_000_000), (0, -5_000_000));
    assert!(play.next_frame_wins());
    let play = running(&[(0, 0), (1, 0), (3, 0)], (40_000_000, 30_000_000), (0, -5_000_000));
    assert!(!play.next_frame_wins());
    // a wall comes first
    let play = running(&[(0, 0)], (12_000_000, 30_000_000), (-4_000_000, -3_000_000));
    assert!(!play.next_frame_wins());
    let mut play = PlayState::new(0, 0);
    assert!(!play.next_frame_wins());
    play.launch();
    assert!(!play.next_frame_wins());
}

// A small generator of numbers, the same in every run.
fn next(seed: &mut u64) -> u64 {
    *seed = seed.wrapping_mul(6_364_136_223_846_793_005).wrapping_add(1_442_695_040_888_963_407);
    *seed >> 33
}

fn between_walls(x: i64) -> bool {
    10_000_000 < x && x < 790_000_000
}

#[test]
fn what_holds_in_every_game() {
    for game in 0..40u64 {
        let mut seed = game;
        let index = [0u32, 1, 2, 3, 6, 7, 8, 300][(game % 8) as usize];
        let mut play = PlayState::new(index, 5);
        let speed = play.level.ball_speed as i128;
        let total = play.score as usize + play.level.blocks.len();
        let mut keys = 0;
        for _ in 0..3_000 {
            let before = cells(&play);
            let score = play.score;
            let mode = play.mode;
            let ball = play.ball;
            match next(&mut seed) % 8 {
                0 => play.key_down_event(Key::Left, next(&mut seed) % 2 == 0),
                1 => play.key_down_event(Key::Right, next(&mut seed) % 2 == 0),
                2 => play.key_down_event(Key::Space, false),
                _ => {
                    let wins = play.next_frame_wins();
                    let was = (play.ball, play.velocity, play.paddle, play.ramp);
                    let hit = play.advance_frame();
                    let gone = before.len() - play.level.blocks.len();
                    assert_eq!((play.score - score) as usize, gone);
                    assert_eq!(hit.destroyed.len(), gone);
                    assert!(hit.destroyed.iter().all(|b| before.contains(&b.key())));
                    assert!(hit.destroyed.iter().all(|b| !cells(&play).contains(&b.key())));
                    assert_eq!(hit.cue == Cue::BlockHit, gone > 0);
                    assert_eq!(wins, mode == PlayMode::Running && play.mode == PlayMode::Won);
                    if mode != PlayMode::Running {
                        assert_eq!(hit.cue, Cue::Silent);
                        assert_eq!(was, (play.ball, play.velocity, play.paddle, play.ramp));
                        assert_eq!(play.mode, mode);
                        assert_eq!(gone, 0);
                    }
                    keys += 1;
                }
            }
            assert!(play.is_wf());
            // a frame moves the ball by its velocity, and a key moves it
            // with the paddle, or not at all
            let reach = play.level.ball_speed.max(700_000_000);
            assert!((play.ball.0 - ball.0).abs() <= reach);
            assert!((play.ball.1 - ball.1).abs() <= reach);
            // the paddle stays within its limits
            assert!(50_000_000 <= play.paddle && play.paddle <= 750_000_000);
            // blocks only go, and each one that goes counts
            let after = cells(&play);
            assert!(after.len() <= before.len());
            assert!(after.iter().all(|c| before.contains(c)));
            assert!(play.score >= score);
            assert_eq!(play.score as usize + after.len(), total);
            // the ball is between the side walls, or back there a frame later
            if play.mode == PlayMode::Running {
                assert!(between_walls(play.ball.0) || between_walls(play.ball.0 + play.velocity.0));
            }
            // the ball flies at the level's speed
            let (vx, vy) = (play.velocity.0 as i128, play.velocity.1.abs() as i128);
            assert!(vx * vx + vy * vy <= speed * speed);
            assert!(speed * speed < vx * vx + (vy + 1) * (vy + 1));
            assert!(1_000_000 * (speed * speed - (vx * vx + vy * vy)) <= speed * speed);
            assert_eq!((play.mode == PlayMode::Won), after.is_empty());
        }
        assert!(keys > 0);
    }
}

#[test]
fn a_game_can_be_lost_and_won() {
    // the ball goes straight up to the pyramid's tip and comes straight
    // back, and the paddle has left
    let mut play = PlayState::new(0, 0);
    play.launch();
    for _ in 0..20 {
        play.move_paddle(Direction::Right, false);
    }
    let mut frames = 0;
    while play.mode == PlayMode::Running {
        play.advance_frame();
        frames += 1;
    }
    assert_eq!(frames, 64 + 69);
    assert_eq!(cells(&play).len(), 8);
    assert!(!cells(&play).contains(&(10, 2)));
    assert_eq!(play.ball, (400_000_000, 415_000_000));
    assert_eq!(play.outcome(), Some(Outcome::Lost { score: 1 }));

    let mut play = PlayState::new(1, 0);
    play.level = Level { index: 1, blocks: vec![Block::new(10, 4)], ball_speed: 5_000_000 };
    play.launch();
    while play.mode == PlayMode::Running {
        play.advance_frame();
    }
    assert_eq!(play.outcome(), Some(Outcome::Won { next: 2, score: 1 }));
    let fresh = next_level(1);
    assert_eq!(fresh.blocks.len(), 8);
}
