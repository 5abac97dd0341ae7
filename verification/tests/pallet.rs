use weather_forecast::module::Module;
use weather_forecast::types::{DispatchError, Event, Origin, ProposalHash, Weather};

fn hash(n: u8) -> ProposalHash {
    [n; 32]
}

fn london() -> Weather {
    Weather::new(
        1578119710,
        b"London".to_vec(),
        b"Clouds".to_vec(),
        b"broken clouds".to_vec(),
        b"04n".to_vec(),
        277690,
        81000,
        4600,
        51000,
        1578125144,
        1578153856,
    )
}

fn event_name(e: &Event) -> String {
    format!("{:?}", e)
}

#[test]
fn it_works_for_default_value() {
    let m = Module::new();
    assert_eq!(m.vote_threshold(), 0);
    assert!(m.proposal_authorities().is_empty());
}

#[test]
fn only_root_manages_authorities_and_threshold() {
    let mut m = Module::new();
    assert_eq!(m.add_proposal_authority(Origin::Signed(1), 7).unwrap_err(), DispatchError::BadOrigin);
    assert_eq!(m.add_vote_authority(Origin::Unsigned, 7).unwrap_err(), DispatchError::BadOrigin);
    assert_eq!(m.delete_proposal_authority(Origin::Signed(7), 7).unwrap_err(), DispatchError::BadOrigin);
    assert_eq!(m.delete_vote_authority(Origin::Signed(7), 7).unwrap_err(), DispatchError::BadOrigin);
    assert_eq!(m.set_vote_threshold(Origin::Signed(7), 3).unwrap_err(), DispatchError::BadOrigin);
    assert!(m.proposal_authorities().is_empty());
    assert!(m.vote_authorities().is_empty());
    assert_eq!(m.vote_threshold(), 0);

    let e = m.set_vote_threshold(Origin::Root, 3).unwrap();
    assert_eq!(event_name(&e), "VoteThresholdSet(3)");
    assert_eq!(m.vote_threshold(), 3);
}

#[test]
fn add_is_idempotent_and_delete_undoes_add() {
    let mut m = Module::new();
    m.add_proposal_authority(Origin::Root, 1).unwrap();
    m.add_proposal_authority(Origin::Root, 2).unwrap();
    let e = m.add_proposal_authority(Origin::Root, 1).unwrap();
    assert_eq!(event_name(&e), "ProposalAuthoritiesAdded(1)");
    assert_eq!(m.proposal_authorities(), &vec![1, 2]);
    assert!(m.is_proposal_authority(1));

    m.add_proposal_authority(Origin::Root, 3).unwrap();
    let e = m.delete_proposal_authority(Origin::Root, 3).unwrap();
    assert_eq!(event_name(&e), "ProposalAuthoritiesDeleted(3)");
    assert_eq!(m.proposal_authorities(), &vec![1, 2]);
    assert!(!m.is_proposal_authority(3));

    m.delete_proposal_authority(Origin::Root, 1).unwrap();
    assert_eq!(m.proposal_authorities(), &vec![2]);
    // Deleting an account that is not an authority changes nothing.
    m.delete_proposal_authority(Origin::Root, 9).unwrap();
    assert_eq!(m.proposal_authorities(), &vec![2]);

    m.add_vote_authority(Origin::Root, 10).unwrap();
    m.add_vote_authority(Origin::Root, 11).unwrap();
    m.add_vote_authority(Origin::Root, 10).unwrap();
    assert_eq!(m.vote_authorities(), &vec![10, 11]);
    m.delete_vote_authority(Origin::Root, 10).unwrap();
    assert_eq!(m.vote_authorities(), &vec![11]);
    assert!(m.is_vote_authority(11));
    assert!(!m.is_vote_authority(10));
}

#[test]
fn proposals_are_filed_and_read_back() {
    let mut m = Module::new();
    let refused = m.submit_weather_proposal(Origin::Signed(5), london(), hash(1));
    assert_eq!(
        refused.unwrap_err(),
        DispatchError::Other("submit_weather_proposal: sender is not a proposal authority.")
    );
    assert_eq!(m.all_proposals_count(), 0);
    assert_eq!(
        m.submit_weather_proposal(Origin::Root, london(), hash(1)).unwrap_err(),
        DispatchError::BadOrigin
    );

    m.add_proposal_authority(Origin::Root, 5).unwrap();
    let e = m.submit_weather_proposal(Origin::Signed(5), london(), hash(1)).unwrap();
    match e {
        Event::WeatherProposalSubmitted(sender, h, w) => {
            assert_eq!(sender, 5);
            assert_eq!(h, hash(1));
            assert_eq!(w.temp(), 277690);
        }
        other => panic!("unexpected event {:?}", other),
    }
    let second = Weather::new(1, b"Paris".to_vec(), vec![], vec![], vec![], 1, 2, 3, 4, 5, 6).clone();
    m.submit_weather_proposal(Origin::Signed(5), second, hash(2)).unwrap();

    assert_eq!(m.all_proposals_count(), 2);
    assert_eq!(m.all_proposals_array(0), hash(1));
    assert_eq!(m.all_proposals_array(1), hash(2));
    assert_eq!(m.all_proposals_array(2), [0u8; 32]);
    assert_eq!(m.all_proposals_index(&hash(2)), 1);
    assert_eq!(m.owned_proposals_count(5), 2);
    assert_eq!(m.owned_proposals_array(5, 1), hash(2));
    assert_eq!(m.owned_proposals_index(&hash(2)), (5, 1));
    assert_eq!(m.proposal_owner(&hash(1)), 5);
    let stored = m.proposals(&hash(1));
    assert_eq!(stored.city(), &b"London".to_vec());
    assert_eq!(stored.sunset(), 1578153856);
    let missing = m.proposals(&hash(9));
    assert_eq!(missing.time(), 0);
    assert!(missing.city().is_empty());
}

#[test]
fn votes_confirm_a_proposal_at_the_threshold() {
    let mut m = Module::new();
    for who in [10, 11, 12] {
        m.add_vote_authority(Origin::Root, who).unwrap();
    }
    m.set_vote_threshold(Origin::Root, 2).unwrap();

    assert_eq!(
        m.submit_weather_vote(Origin::Signed(99), hash(1)).unwrap_err(),
        DispatchError::Other("submit_weather_vote: sender is not a vote authority.")
    );
    let e = m.submit_weather_vote(Origin::Signed(10), hash(1)).unwrap();
    assert_eq!(event_name(&e), format!("WeatherVoteSubmitted(10, {:?})", hash(1)));
    assert_eq!(m.all_confirmed_proposals_count(), 0);
    assert_eq!(
        m.submit_weather_vote(Origin::Signed(10), hash(1)).unwrap_err(),
        DispatchError::Other("submit_weather_vote: sender has voted.")
    );
    assert_eq!(m.proposal_confirmation(&hash(1)), vec![10]);

    m.submit_weather_vote(Origin::Signed(11), hash(1)).unwrap();
    assert_eq!(m.all_confirmed_proposals_count(), 1);
    assert_eq!(m.all_confirmed_proposals_array(0), hash(1));
    assert_eq!(m.all_confirmed_proposals_index(&hash(1)), 0);
    assert_eq!(m.proposal_confirmation(&hash(1)), vec![10, 11]);

    // A third vote goes past the threshold and confirms nothing more.
    m.submit_weather_vote(Origin::Signed(12), hash(1)).unwrap();
    assert_eq!(m.all_confirmed_proposals_count(), 1);
    assert_eq!(m.all_confirmed_proposals_array(1), [0u8; 32]);
    assert_eq!(
        m.submit_weather_vote(Origin::Unsigned, hash(1)).unwrap_err(),
        DispatchError::BadOrigin
    );
}

#[test]
fn a_zero_threshold_confirms_at_the_first_vote() {
    let mut m = Module::new();
    m.add_vote_authority(Origin::Root, 10).unwrap();
    m.add_vote_authority(Origin::Root, 11).unwrap();
    m.submit_weather_vote(Origin::Signed(10), hash(3)).unwrap();
    assert_eq!(m.all_confirmed_proposals_count(), 1);
    m.submit_weather_vote(Origin::Signed(11), hash(3)).unwrap();
    assert_eq!(m.all_confirmed_proposals_count(), 1);
}

#[test]
fn votes_past_a_lowered_threshold_confirm_once() {
    let mut m = Module::new();
    for who in [1, 2, 3, 4] {
        m.add_vote_authority(Origin::Root, who).unwrap();
    }
    m.set_vote_threshold(Origin::Root, 3).unwrap();
    m.submit_weather_vote(Origin::Signed(1), hash(5)).unwrap();
    m.submit_weather_vote(Origin::Signed(2), hash(5)).unwrap();
    assert_eq!(m.all_confirmed_proposals_count(), 0);
    m.set_vote_threshold(Origin::Root, 1).unwrap();
    m.submit_weather_vote(Origin::Signed(3), hash(5)).unwrap();
    assert_eq!(m.all_confirmed_proposals_count(), 1);
    assert_eq!(m.all_confirmed_proposals_array(0), hash(5));
    m.submit_weather_vote(Origin::Signed(4), hash(5)).unwrap();
    assert_eq!(m.all_confirmed_proposals_count(), 1);
}

#[test]
fn meeting_a_raised_threshold_confirms_a_proposal_again() {
    let mut m = Module::new();
    for who in [1, 2, 3, 4] {
        m.add_vote_authority(Origin::Root, who).unwrap();
    }
    m.set_vote_threshold(Origin::Root, 2).unwrap();
    m.submit_weather_vote(Origin::Signed(1), hash(6)).unwrap();
    m.submit_weather_vote(Origin::Signed(2), hash(6)).unwrap();
    assert_eq!(m.all_confirmed_proposals_count(), 1);
    m.set_vote_threshold(Origin::Root, 3).unwrap();
    m.submit_weather_vote(Origin::Signed(3), hash(6)).unwrap();
    assert_eq!(m.all_confirmed_proposals_count(), 2);
    assert_eq!(m.all_confirmed_proposals_array(0), hash(6));
    assert_eq!(m.all_confirmed_proposals_array(1), hash(6));
    assert_eq!(m.all_confirmed_proposals_index(&hash(6)), 1);
    // Past the raised threshold nothing more is listed.
    m.submit_weather_vote(Origin::Signed(4), hash(6)).unwrap();
    assert_eq!(m.all_confirmed_proposals_count(), 2);
}

#[test]
fn proposal_authority_is_kicked_out_past_a_lowered_threshold() {
    let mut m = Module::new();
    m.set_vote_threshold(Origin::Root, 3).unwrap();
    for v in [1, 2, 3] {
        m.add_vote_authority(Origin::Root, v).unwrap();
    }
    m.add_proposal_authority(Origin::Root, 7).unwrap();
    m.submit_proposal_authority_reputation(Origin::Signed(1), 7).unwrap();
    m.submit_proposal_authority_reputation(Origin::Signed(2), 7).unwrap();
    assert!(m.is_proposal_authority(7));
    m.set_vote_threshold(Origin::Root, 2).unwrap();
    m.submit_proposal_authority_reputation(Origin::Signed(3), 7).unwrap();
    assert!(!m.is_proposal_authority(7));
    assert!(m.proposal_authority_reputation(7).is_empty());
}

#[test]
fn vote_authority_is_kicked_out_past_a_lowered_threshold() {
    let mut m = Module::new();
    m.set_vote_threshold(Origin::Root, 2).unwrap();
    for v in [1, 2, 3] {
        m.add_vote_authority(Origin::Root, v).unwrap();
    }
    m.submit_vote_authority_reputation(Origin::Signed(1), 3).unwrap();
    assert!(m.is_vote_authority(3));
    m.set_vote_threshold(Origin::Root, 1).unwrap();
    m.submit_vote_authority_reputation(Origin::Signed(2), 3).unwrap();
    assert!(!m.is_vote_authority(3));
    assert_eq!(m.vote_authorities(), &vec![1, 2]);
}

#[test]
fn proposal_authority_is_kicked_out_at_the_threshold() {
    let mut m = Module::new();
    m.add_proposal_authority(Origin::Root, 1).unwrap();
    m.add_proposal_authority(Origin::Root, 2).unwrap();
    m.add_vote_authority(Origin::Root, 10).unwrap();
    m.add_vote_authority(Origin::Root, 11).unwrap();
    m.set_vote_threshold(Origin::Root, 2).unwrap();

    assert_eq!(
        m.submit_proposal_authority_reputation(Origin::Signed(1), 2).unwrap_err(),
        DispatchError::Other("submit_proposal_authority_reputation: sender is not a vote authority.")
    );
    assert_eq!(
        m.submit_proposal_authority_reputation(Origin::Signed(10), 3).unwrap_err(),
        DispatchError::Other(
            "submit_proposal_authority_reputation: proposer is not a proposal authority."
        )
    );
    let e = m.submit_proposal_authority_reputation(Origin::Signed(10), 1).unwrap();
    assert_eq!(event_name(&e), "ProposalAuthorityReputationVoteSubmitted(10, 1)");
    assert_eq!(
        m.submit_proposal_authority_reputation(Origin::Signed(10), 1).unwrap_err(),
        DispatchError::Other("submit_proposal_authority_reputation: sender has voted.")
    );
    assert_eq!(m.proposal_authority_reputation(1), vec![10]);
    assert!(m.is_proposal_authority(1));

    m.submit_proposal_authority_reputation(Origin::Signed(11), 1).unwrap();
    assert!(!m.is_proposal_authority(1));
    assert_eq!(m.proposal_authorities(), &vec![2]);
    assert!(m.proposal_authority_reputation(1).is_empty());
}

#[test]
fn vote_authority_is_kicked_out_at_the_threshold() {
    let mut m = Module::new();
    for who in [10, 11, 12] {
        m.add_vote_authority(Origin::Root, who).unwrap();
    }
    m.set_vote_threshold(Origin::Root, 2).unwrap();

    assert_eq!(
        m.submit_vote_authority_reputation(Origin::Signed(1), 12).unwrap_err(),
        DispatchError::Other("submit_vote_authority_reputation: sender is not a vote authority.")
    );
    assert_eq!(
        m.submit_vote_authority_reputation(Origin::Signed(10), 13).unwrap_err(),
        DispatchError::Other("submit_vote_authority_reputation: user is not a vote authority.")
    );
    let e = m.submit_vote_authority_reputation(Origin::Signed(10), 12).unwrap();
    assert_eq!(event_name(&e), "VoteAuthorityReputationVoteSubmitted(10, 12)");
    assert_eq!(
        m.submit_vote_authority_reputation(Origin::Signed(10), 12).unwrap_err(),
        DispatchError::Other("submit_vote_authority_reputation: sender has voted.")
    );
    m.submit_vote_authority_reputation(Origin::Signed(11), 12).unwrap();
    assert_eq!(m.vote_authorities(), &vec![10, 11]);
    assert!(m.vote_authority_reputation(12).is_empty());
    assert_eq!(
        m.submit_weather_vote(Origin::Signed(12), hash(1)).unwrap_err(),
        DispatchError::Other("submit_weather_vote: sender is not a vote authority.")
    );
}
