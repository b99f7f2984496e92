use consensus::api::parse_phase;
use consensus::engine::VotePhase;

#[test]
fn test_parse_phase_recognized() {
    assert_eq!(parse_phase(&"precommit".to_string()), Some(VotePhase::Precommit));
    assert_eq!(parse_phase(&"commit".to_string()), Some(VotePhase::Commit));
}

#[test]
fn test_parse_phase_rejected() {
    assert_eq!(parse_phase(&"Commit".to_string()), None);
    assert_eq!(parse_phase(&"precommit ".to_string()), None);
    assert_eq!(parse_phase(&"".to_string()), None);
    assert_eq!(parse_phase(&"prevote".to_string()), None);
}
