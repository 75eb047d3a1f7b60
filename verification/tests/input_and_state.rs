use snake::grid::Direction;
use snake::game::FrameInput;
use snake::input::{directions, pressed, InputQueue, Key, MAX_INPUT_QUEUE_LENGTH};
use snake::state::{GameState, SoundType};

fn queued(q: &InputQueue) -> Vec<Direction> {
    let mut out = Vec::new();
    let mut i = 0;
    while let Some(d) = q.get(i) {
        out.push(d);
        i += 1;
    }
    out
}

#[test]
fn new_queue_is_empty() {
    let q = InputQueue::new();
    assert_eq!(q.len(), 0);
    assert_eq!(q.get(0), None);
    assert_eq!(MAX_INPUT_QUEUE_LENGTH, 2);
}

#[test]
fn enqueue_keeps_order() {
    let mut q = InputQueue::new();
    q.enqueue(&vec![Direction::Up, Direction::Left]);
    assert_eq!(queued(&q), vec![Direction::Up, Direction::Left]);
}

#[test]
fn enqueue_drops_what_does_not_fit() {
    let mut q = InputQueue::new();
    q.enqueue(&vec![Direction::Up, Direction::Left, Direction::Down, Direction::Right]);
    assert_eq!(queued(&q), vec![Direction::Up, Direction::Left]);
    q.enqueue(&vec![Direction::Down]);
    assert_eq!(queued(&q), vec![Direction::Up, Direction::Left]);
}

#[test]
fn enqueue_fills_the_room_that_is_left() {
    let mut q = InputQueue::new();
    q.enqueue(&vec![Direction::Up]);
    q.enqueue(&vec![]);
    assert_eq!(queued(&q), vec![Direction::Up]);
    q.enqueue(&vec![Direction::Down, Direction::Right]);
    assert_eq!(queued(&q), vec![Direction::Up, Direction::Down]);
}

#[test]
fn resolve_on_empty_queue_keeps_heading() {
    let mut q = InputQueue::new();
    assert_eq!(q.resolve(Direction::Up), Direction::Up);
    assert_eq!(q.len(), 0);
}

#[test]
fn resolve_takes_one_legal_turn_per_call() {
    let mut q = InputQueue::new();
    q.enqueue(&vec![Direction::Up, Direction::Left]);
    assert_eq!(q.resolve(Direction::Right), Direction::Up);
    assert_eq!(queued(&q), vec![Direction::Left]);
    assert_eq!(q.resolve(Direction::Up), Direction::Left);
    assert_eq!(q.len(), 0);
}

#[test]
fn left_then_right_while_moving_right() {
    let mut q = InputQueue::new();
    q.enqueue(&vec![Direction::Left, Direction::Right]);
    assert_eq!(queued(&q), vec![Direction::Left, Direction::Right]);
    assert_eq!(q.resolve(Direction::Right), Direction::Right);
    assert_eq!(q.len(), 0);
}

#[test]
fn resolve_with_only_reversals_empties_the_queue() {
    let mut q = InputQueue::new();
    q.enqueue(&vec![Direction::Down, Direction::Down]);
    assert_eq!(q.resolve(Direction::Up), Direction::Up);
    assert_eq!(q.len(), 0);
}

#[test]
fn resolve_never_returns_the_reverse() {
    let all = [Direction::Left, Direction::Right, Direction::Up, Direction::Down];
    for head in all {
        for a in all {
            for b in all {
                let mut q = InputQueue::new();
                q.enqueue(&vec![a, b]);
                let d = q.resolve(head);
                assert_ne!(d, head.reverse());
                let expected = if a != head.reverse() {
                    (a, 1)
                } else if b != head.reverse() {
                    (b, 0)
                } else {
                    (head, 0)
                };
                assert_eq!((d, q.len()), expected);
            }
        }
    }
}

#[test]
fn startup_is_the_default_phase() {
    assert_eq!(GameState::default(), GameState::Startup);
    assert_eq!(SoundType::default(), SoundType::Silence);
}

#[test]
fn confirm_starts_pauses_and_resumes() {
    assert_eq!(GameState::Startup.handle_state_input(true, false), GameState::Running);
    assert_eq!(GameState::Running.handle_state_input(true, false), GameState::Paused);
    assert_eq!(GameState::Paused.handle_state_input(true, false), GameState::Running);
    assert_eq!(GameState::GameOver.handle_state_input(true, false), GameState::GameOver);
}

#[test]
fn restart_only_leaves_game_over() {
    assert_eq!(GameState::Startup.handle_state_input(false, true), GameState::Startup);
    assert_eq!(GameState::Running.handle_state_input(false, true), GameState::Running);
    assert_eq!(GameState::Paused.handle_state_input(false, true), GameState::Paused);
    assert_eq!(GameState::GameOver.handle_state_input(false, true), GameState::Running);
    assert_eq!(GameState::GameOver.handle_state_input(true, true), GameState::Running);
    assert_eq!(GameState::Running.handle_state_input(true, true), GameState::Paused);
}

#[test]
fn no_press_changes_no_phase() {
    for s in [GameState::Startup, GameState::Running, GameState::Paused, GameState::GameOver] {
        assert_eq!(s.handle_state_input(false, false), s);
    }
}

#[test]
fn overlay_messages() {
    assert_eq!(
        GameState::Startup.get_message(),
        Some("USE WASD OR ARROW KEYS TO CONTROL THE SNAKE\nPRESS SPACE TO PAUSE OR UNPAUSE THE GAME\nPRESS ESC TO EXIT\nPRESS SPACE TO CONTINUE")
    );
    assert_eq!(GameState::Running.get_message(), None);
    assert_eq!(GameState::Paused.get_message(), Some("PAUSED"));
    assert_eq!(GameState::GameOver.get_message(), Some("GAME OVER\nPRESS R TO RESTART OR ESC TO EXIT"));
}

#[test]
fn steering_keys_have_two_bindings_each() {
    assert_eq!(Key::Left.direction(), Some(Direction::Left));
    assert_eq!(Key::A.direction(), Some(Direction::Left));
    assert_eq!(Key::Right.direction(), Some(Direction::Right));
    assert_eq!(Key::D.direction(), Some(Direction::Right));
    assert_eq!(Key::Up.direction(), Some(Direction::Up));
    assert_eq!(Key::W.direction(), Some(Direction::Up));
    assert_eq!(Key::Down.direction(), Some(Direction::Down));
    assert_eq!(Key::S.direction(), Some(Direction::Down));
    assert_eq!(Key::Space.direction(), None);
    assert_eq!(Key::R.direction(), None);
}

#[test]
fn directions_keep_the_order_of_the_keys() {
    let keys = vec![Key::W, Key::Space, Key::Left, Key::R, Key::S, Key::W];
    assert_eq!(
        directions(&keys),
        vec![Direction::Up, Direction::Left, Direction::Down, Direction::Up]
    );
    assert_eq!(directions(&vec![]), vec![]);
    assert_eq!(directions(&vec![Key::Space, Key::R]), vec![]);
}

#[test]
fn pressed_finds_a_key() {
    let keys = vec![Key::W, Key::Space];
    assert!(pressed(&keys, Key::Space));
    assert!(pressed(&keys, Key::W));
    assert!(!pressed(&keys, Key::R));
    assert!(!pressed(&vec![], Key::R));
}

#[test]
fn frame_input_from_keys() {
    let input = FrameInput::from_keys(&vec![Key::D, Key::R, Key::Up], 17);
    assert!(!input.confirm);
    assert!(input.restart);
    assert_eq!(input.directions, vec![Direction::Right, Direction::Up]);
    assert_eq!(input.delta, 17);
    let input = FrameInput::from_keys(&vec![Key::Space], 0);
    assert!(input.confirm);
    assert!(!input.restart);
    assert!(input.directions.is_empty());
}

#[test]
fn enqueue_on_an_overfull_queue_adds_nothing() {
    let mut q = InputQueue::new();
    for _ in 0..3 {
        q.pending.push_back(Direction::Up);
    }
    q.enqueue(&vec![Direction::Left]);
    assert_eq!(queued(&q), vec![Direction::Up; 3]);
}

#[test]
fn clear_empties_the_queue() {
    let mut q = InputQueue::new();
    q.enqueue(&vec![Direction::Up, Direction::Left]);
    q.clear();
    assert_eq!(q.len(), 0);
    q.clear();
    assert_eq!(q.len(), 0);
    q.enqueue(&vec![Direction::Down]);
    assert_eq!(queued(&q), vec![Direction::Down]);
}
