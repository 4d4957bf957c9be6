use rupture::{
    progress_percent, Afit, CodeSystem, ComputerSystem, Position, ScreamerCues, ScreamerSystem,
    TimeToScreamer, UnlockedComputers, UseSystem, COMPUTER_NUMBER,
};

fn is_sorted_set(ids: &[i32]) -> bool {
    ids.windows(2).all(|w| w[0] < w[1]) && ids.iter().all(|&i| (0..COMPUTER_NUMBER).contains(&i))
}

#[test]
fn unlock_takes_a_free_candidate() {
    let mut uc = UnlockedComputers::new(0);
    assert_eq!(uc.unlock(5, 1000), 5);
    assert_eq!(uc.unlocked_computers, vec![5]);
    assert_eq!(uc.last_unlock_time, 1000);
}

#[test]
fn unlock_probes_forward_past_taken_ids() {
    let mut uc = UnlockedComputers { unlocked_computers: vec![3, 4, 5, 9], last_unlock_time: 0 };
    assert_eq!(uc.unlock(4, 10), 6);
    assert_eq!(uc.unlocked_computers, vec![3, 4, 5, 6, 9]);
}

#[test]
fn unlock_wraps_around() {
    let mut uc = UnlockedComputers { unlocked_computers: vec![0, 30, 31], last_unlock_time: 0 };
    assert_eq!(uc.unlock(30, 10), 1);
    assert_eq!(uc.unlocked_computers, vec![0, 1, 30, 31]);
}

#[test]
fn unlock_fills_every_computer_once() {
    let mut uc = UnlockedComputers::new(0);
    for k in 0..COMPUTER_NUMBER {
        let id = uc.unlock(17, k as u64);
        assert_eq!(id, (17 + k) % COMPUTER_NUMBER);
        assert!(is_sorted_set(&uc.unlocked_computers));
    }
    assert_eq!(uc.unlocked_computers, (0..COMPUTER_NUMBER).collect::<Vec<i32>>());
}

#[test]
fn code_schedule_waits_longer_as_computers_unlock() {
    let mut system = CodeSystem;
    let mut uc = UnlockedComputers::new(0);
    assert_eq!(system.step(&mut uc, 4000, 7), None);
    assert_eq!(system.step(&mut uc, 4001, 7), Some(7));
    assert_eq!(uc.last_unlock_time, 4001);
    // one unlocked: five seconds now
    assert_eq!(system.step(&mut uc, 9001, 7), None);
    assert_eq!(system.step(&mut uc, 9002, 7), Some(8));
    assert_eq!(uc.unlocked_computers, vec![7, 8]);
}

#[test]
fn full_set_spawns_nothing() {
    let mut system = CodeSystem;
    let mut uc = UnlockedComputers { unlocked_computers: (0..COMPUTER_NUMBER).collect(), last_unlock_time: 0 };
    assert_eq!(system.step(&mut uc, 1_000_000, 3), None);
    assert_eq!(system.run(&mut uc, 1_000_000), None);
    assert_eq!(uc.unlocked_computers.len(), 32);
}

#[test]
fn computer_schedule_with_extra_wait() {
    let mut system = ComputerSystem;
    let mut uc = UnlockedComputers::new(0);
    assert_eq!(system.step(&mut uc, 6000, false, 6, 2), None);
    assert_eq!(system.step(&mut uc, 6001, false, 6, 2), Some(2));
    assert_eq!(system.step(&mut uc, 6001 + 12000, false, 11, 2), None);
    assert_eq!(system.step(&mut uc, 6002 + 12000, false, 11, 2), Some(3));
}

#[test]
fn computer_schedule_stands_still_while_reading() {
    let mut system = ComputerSystem;
    let mut uc = UnlockedComputers::new(0);
    assert_eq!(system.step(&mut uc, 50_000, true, 6, 2), None);
    assert_eq!(uc.last_unlock_time, 50_000);
    assert!(uc.unlocked_computers.is_empty());
    assert_eq!(system.run(&mut uc, 60_000, true), None);
    assert_eq!(uc.last_unlock_time, 60_000);
}

#[test]
fn random_spawns_never_repeat() {
    let mut code = CodeSystem;
    let mut computer = ComputerSystem;
    let mut uc = UnlockedComputers::new(0);
    let mut now: u64 = 0;
    let mut seen = Vec::new();
    while uc.unlocked_computers.len() < 32 {
        now += 60_000;
        let before = uc.unlocked_computers.len();
        let id = if now % 120_000 == 0 { code.run(&mut uc, now) } else { computer.run(&mut uc, now, false) };
        let id = id.expect("an unlock is due");
        assert!(!seen.contains(&id));
        seen.push(id);
        assert_eq!(uc.unlocked_computers.len(), before + 1);
        assert!(is_sorted_set(&uc.unlocked_computers));
    }
    assert_eq!(computer.run(&mut uc, now + 60_000, false), None);
}

#[test]
fn random_candidates_vary() {
    let mut firsts = Vec::new();
    for _ in 0..40 {
        let mut uc = UnlockedComputers::new(0);
        firsts.push(CodeSystem.run(&mut uc, 10_000).unwrap());
    }
    assert!(firsts.iter().any(|&id| id != firsts[0]));
}

#[test]
fn progress_percentages() {
    assert_eq!(progress_percent(0), 0);
    assert_eq!(progress_percent(3), 30);
    assert_eq!(progress_percent(10), 100);
    assert_eq!(progress_percent(15), 100);
    assert_eq!(progress_percent(u64::MAX), 100);
}

fn at_desk_with_nine() -> (Position, UnlockedComputers) {
    let uc = UnlockedComputers { unlocked_computers: vec![0, 9, 20], last_unlock_time: 5 };
    (Position { x: -8300, z: -12000 }, uc)
}

#[test]
fn use_takes_the_code_in_reach() {
    let (at, mut uc) = at_desk_with_nine();
    let mut system = UseSystem::new();
    let mut afit = Afit::new();
    let view = system.run(&at, Some(true), false, &mut afit, &mut uc);
    assert!(view.prompt);
    assert_eq!(view.taken, Some(9));
    assert_eq!(uc.unlocked_computers, vec![0, 20]);
    assert_eq!(uc.last_unlock_time, 5);
    assert_eq!(afit.code_found, 1);
}

#[test]
fn use_while_hidden_changes_nothing() {
    let (at, mut uc) = at_desk_with_nine();
    let mut system = UseSystem::new();
    let mut afit = Afit { code_found: 4 };
    let view = system.run(&at, Some(true), true, &mut afit, &mut uc);
    assert_eq!(view.taken, None);
    assert_eq!(uc.unlocked_computers, vec![0, 9, 20]);
    assert_eq!(afit.code_found, 4);
}

#[test]
fn held_use_control_takes_one_code() {
    let mut uc = UnlockedComputers { unlocked_computers: vec![9, 13], last_unlock_time: 0 };
    let at = Position { x: -8300, z: -12000 };
    let mut system = UseSystem::new();
    let mut afit = Afit::new();
    assert_eq!(system.run(&at, Some(true), false, &mut afit, &mut uc).taken, Some(9));
    // computer 9 unlocks again while the control is still held
    uc.unlocked_computers = vec![9];
    assert_eq!(system.run(&at, Some(true), false, &mut afit, &mut uc).taken, None);
    assert_eq!(afit.code_found, 1);
    assert_eq!(system.run(&at, Some(false), false, &mut afit, &mut uc).taken, None);
    assert_eq!(system.run(&at, Some(true), false, &mut afit, &mut uc).taken, Some(9));
    assert_eq!(afit.code_found, 2);
}

#[test]
fn use_away_from_computers_does_nothing() {
    let mut uc = UnlockedComputers { unlocked_computers: vec![0, 9], last_unlock_time: 0 };
    let mut system = UseSystem::new();
    let mut afit = Afit::new();
    let corridor = Position { x: 0, z: 0 };
    let view = system.run(&corridor, Some(true), false, &mut afit, &mut uc);
    assert!(!view.prompt);
    assert_eq!(view.taken, None);
    let desk_without_code = Position { x: -600, z: -12100 };
    let view = UseSystem::new().run(&desk_without_code, Some(true), false, &mut afit, &mut uc);
    assert!(view.prompt);
    assert_eq!(view.taken, None);
    assert_eq!(uc.unlocked_computers, vec![0, 9]);
    assert_eq!(afit.code_found, 0);
}

#[test]
fn use_reaches_the_left_room() {
    let mut uc = UnlockedComputers { unlocked_computers: vec![16], last_unlock_time: 0 };
    let mut afit = Afit::new();
    let view = UseSystem::new().run(&Position { x: -14500, z: -8000 }, Some(true), false, &mut afit, &mut uc);
    assert_eq!(view.taken, Some(16));
    assert!(uc.unlocked_computers.is_empty());
}

const SILENT: ScreamerCues = ScreamerCues { warning: false, scare: false, dismiss: false };

#[test]
fn first_scare_then_reschedule() {
    let system = ScreamerSystem::new();
    let mut since = TimeToScreamer::new();
    let cues = system.step(&mut since, 0, 0, false, false, 4000);
    assert_eq!(cues, SILENT);
    assert_eq!(since.at, 19000);
    let cues = system.step(&mut since, 20000, 0, false, false, 7000);
    assert!(cues.scare);
    assert!(since.display && since.last_displayed == 20000);
    assert!(!since.played);
    // 20 s + 5 s + 10 s / (0 + 1) + 7 s of jitter
    assert_eq!(since.at, 42000);
}

#[test]
fn random_first_scare_within_window() {
    let system = ScreamerSystem::new();
    let mut ats = Vec::new();
    for _ in 0..40 {
        let mut since = TimeToScreamer::new();
        system.run(&mut since, 0, 0, false, false);
        assert!((15000..25000).contains(&since.at));
        ats.push(since.at);
    }
    assert!(ats.iter().any(|&a| a != ats[0]));
    let mut since = TimeToScreamer { at: 19000, played: true, last_displayed: 0, display: false };
    let cues = system.run(&mut since, 20000, 0, false, false);
    assert!(cues.scare);
    assert!((35000..45000).contains(&since.at));
}

#[test]
fn warning_plays_once_per_cycle() {
    let system = ScreamerSystem::new();
    let mut since = TimeToScreamer { at: 19000, played: false, last_displayed: 0, display: false };
    // lead is 1 s + 3 s / (0 + 1)
    assert_eq!(system.step(&mut since, 15000, 0, false, false, 0), SILENT);
    assert!(system.step(&mut since, 15001, 0, false, false, 0).warning);
    assert!(since.played);
    assert!(!system.step(&mut since, 16000, 0, false, false, 0).warning);
    assert!(!system.step(&mut since, 19000, 0, false, false, 0).warning);
    let cues = system.step(&mut since, 19001, 0, false, false, 0);
    assert!(cues.scare && !cues.warning);
    assert!(!since.played);
}

#[test]
fn progress_shortens_warning_and_interval() {
    let system = ScreamerSystem::new();
    // two codes: lead 1 s + 3 s / 3
    let mut since = TimeToScreamer { at: 30000, played: false, last_displayed: 0, display: false };
    assert!(!system.step(&mut since, 28000, 2, false, false, 0).warning);
    assert!(system.step(&mut since, 28001, 2, false, false, 0).warning);
    system.step(&mut since, 30001, 4, false, false, 1000);
    // 5 s + 10 s / 5 + 1 s
    assert_eq!(since.at, 30001 + 8000);
}

#[test]
fn hidden_player_is_not_scared_but_schedule_runs() {
    let system = ScreamerSystem::new();
    let mut since = TimeToScreamer { at: 19000, played: true, last_displayed: 0, display: false };
    let cues = system.step(&mut since, 20000, 0, true, false, 2000);
    assert!(!cues.scare);
    assert!(!since.display);
    assert!(!since.played);
    assert_eq!(since.at, 37000);
}

#[test]
fn scare_leaves_the_screen_after_three_seconds() {
    let system = ScreamerSystem::new();
    let mut since = TimeToScreamer { at: 100_000, played: false, last_displayed: 20000, display: true };
    assert!(!system.step(&mut since, 23000, 0, false, false, 0).dismiss);
    assert!(since.display);
    assert!(system.step(&mut since, 23001, 0, false, false, 0).dismiss);
    assert!(!since.display);
    assert!(!system.step(&mut since, 24000, 0, false, false, 0).dismiss);
}

#[test]
fn screamer_waits_while_reading() {
    let system = ScreamerSystem::new();
    let mut since = TimeToScreamer::new();
    assert_eq!(system.step(&mut since, 5000, 0, false, true, 3000), SILENT);
    assert_eq!(since, TimeToScreamer::new());
    assert_eq!(system.run(&mut since, 5000, 0, false, true), SILENT);
    assert_eq!(since.at, 0);
}

#[test]
fn custom_tuning() {
    let system = ScreamerSystem { warning_scale: 10000, interval_floor: 0 };
    let mut since = TimeToScreamer { at: 20000, played: false, last_displayed: 0, display: false };
    assert!(system.step(&mut since, 9001, 0, false, false, 0).warning);
    system.step(&mut since, 20001, 9, false, false, 0);
    assert_eq!(since.at, 21001);
}
