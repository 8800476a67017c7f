use soroban_templates::dao::ProposalState;

#[test]
fn proposal_state_tags_and_labels() {
    let states = [ProposalState::Active, ProposalState::Queued, ProposalState::Executed, ProposalState::Cancelled];
    let tags: Vec<u32> = states.iter().map(|s| s.tag()).collect();
    let labels: Vec<&str> = states.iter().map(|s| s.label()).collect();
    assert_eq!(tags, vec![0, 1, 2, 3]);
    assert_eq!(labels, vec!["active", "queued", "executed", "cancelled"]);
}
