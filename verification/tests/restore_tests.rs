use desktoporz::layout::{
    desktop_wait_step, resolve_targets, DesktopWait, MoveTarget, RestoreAction, RestoreRun,
    RESTORE_ATTEMPTS,
};
use desktoporz::types::IconEntry;

fn restore_icon(name: &str, x: i32, y: i32) -> IconEntry {
    IconEntry { name: name.to_string(), x, y }
}

#[test]
fn resolve_targets_uses_the_last_item_of_a_name() {
    let names: Vec<String> = ["Trash", "Docs", "Trash"].iter().map(|s| s.to_string()).collect();
    let icons = vec![restore_icon("Docs", 1, 2), restore_icon("Gone", 3, 4), restore_icon("Trash", 5, 6)];
    let t = resolve_targets(&icons, &names);
    assert_eq!(t, vec![MoveTarget { index: 1, x: 1, y: 2 }, MoveTarget { index: 2, x: 5, y: 6 }]);
}

/// Runs a restore against a simulated desktop whose icons start at the given positions;
/// `disturb` moves icons after each pass, as Explorer may do at logon.
fn simulate(targets: Vec<MoveTarget>, positions: &mut Vec<(i32, i32)>, mut disturb: impl FnMut(usize, &mut Vec<(i32, i32)>)) -> (usize, usize, usize) {
    let mut run = RestoreRun::new(targets);
    let mut observed = None;
    let mut moves = 0;
    let mut passes = 1;
    let mut steps = 0;
    loop {
        steps += 1;
        assert!(steps < 10_000);
        match run.step(observed.take()) {
            RestoreAction::Move { index, x, y } => {
                positions[index] = (x, y);
                moves += 1;
            }
            RestoreAction::Read { index } => observed = Some(positions[index]),
            RestoreAction::Refresh => disturb(passes, positions),
            RestoreAction::Pause => passes += 1,
            RestoreAction::Finish { moved } => return (moved, moves, passes),
        }
    }
}

#[test]
fn restore_stops_after_a_pass_with_everything_in_place() {
    let targets = vec![MoveTarget { index: 0, x: 10, y: 10 }, MoveTarget { index: 1, x: 20, y: 20 }];
    let mut positions = vec![(0, 0), (0, 0)];
    let (moved, moves, passes) = simulate(targets, &mut positions, |_, _| {});
    assert_eq!(positions, vec![(10, 10), (20, 20)]);
    assert_eq!((moved, moves, passes), (2, 2, 2));
}

#[test]
fn restore_moves_again_what_explorer_moved() {
    let targets = vec![MoveTarget { index: 0, x: 10, y: 10 }, MoveTarget { index: 1, x: 20, y: 20 }];
    let mut positions = vec![(0, 0), (0, 0)];
    let (moved, moves, passes) = simulate(targets, &mut positions, |pass, p| {
        if pass == 1 {
            p[1] = (99, 99);
        }
    });
    assert_eq!(positions, vec![(10, 10), (20, 20)]);
    assert_eq!((moved, moves, passes), (2, 3, 3));
}

#[test]
fn restore_gives_up_after_the_last_pass() {
    let targets = vec![MoveTarget { index: 0, x: 10, y: 10 }];
    let mut positions = vec![(0, 0)];
    let (moved, moves, passes) = simulate(targets, &mut positions, |_, p| p[0] = (1, 1));
    assert_eq!(passes, RESTORE_ATTEMPTS);
    assert_eq!(moves, RESTORE_ATTEMPTS);
    assert_eq!(moved, 1);
}

#[test]
fn restore_with_nothing_to_move() {
    let mut positions = vec![];
    let (moved, moves, passes) = simulate(vec![], &mut positions, |_, _| {});
    assert_eq!((moved, moves, passes), (0, 0, 1));
}

#[test]
fn desktop_wait_decisions() {
    assert_eq!(desktop_wait_step(true, 0), DesktopWait::Ready);
    assert_eq!(desktop_wait_step(false, 59_999_999_999), DesktopWait::Poll);
    assert_eq!(desktop_wait_step(false, 60_000_000_000), DesktopWait::GiveUp);
}
