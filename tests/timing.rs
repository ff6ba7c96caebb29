use bo_autosplitter::array::ReadError;
use bo_autosplitter::game_data::BetaPlayerDataManager;
use bo_autosplitter::timing::{scene_decision, GameClock, GameTimeAction};

fn played(seconds: f32) -> BetaPlayerDataManager {
    BetaPlayerDataManager { time_played_bits: seconds.to_bits() }
}

#[test]
fn clock_sets_pauses_and_resumes() {
    let mut clock = GameClock::new();
    assert_eq!(clock.tick(Ok(played(1.5))), GameTimeAction::SetGameTime { seconds_bits: 1.5f32.to_bits() });
    assert_eq!(clock.tick(Ok(played(1.5))), GameTimeAction::Pause);
    assert!(clock.paused);
    assert_eq!(clock.tick(Ok(played(2.0))), GameTimeAction::Resume);
    assert!(!clock.paused);
    assert_eq!(clock.tick(Ok(played(3.0))), GameTimeAction::SetGameTime { seconds_bits: 3.0f32.to_bits() });
    assert_eq!(clock.tick(Err(ReadError::ReadFailure)), GameTimeAction::Keep);
    clock.pause();
    assert!(clock.paused);
    clock.run_ended();
    assert!(!clock.paused);
}

#[test]
fn scene_changes() {
    let menu = Some("New Main Menu".to_string());
    let d = scene_decision(&menu, &"CBF Intro".to_string(), true);
    assert!(d.changed && d.start_timer && !d.back_to_menu);
    let d = scene_decision(&menu, &"CBF Intro".to_string(), false);
    assert!(d.changed && !d.start_timer);
    let d = scene_decision(&Some("Forest".to_string()), &"New Main Menu".to_string(), true);
    assert!(d.changed && d.back_to_menu && !d.start_timer);
    let d = scene_decision(&Some("Forest".to_string()), &"Forest".to_string(), true);
    assert!(!d.changed && !d.back_to_menu && !d.start_timer);
    let d = scene_decision(&None, &"Forest".to_string(), true);
    assert!(d.changed && !d.start_timer);
}
