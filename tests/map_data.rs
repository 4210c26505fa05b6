use game::data::{standard_round_schedule, Connection, DataService, Round, StationType};

fn test_connections() -> Vec<Connection> {
    vec![Connection { from: 100, to: 106, mode: StationType::Taxi }]
}

#[test]
fn get_rounds() {
    let data = DataService::new(vec![], test_connections(), vec![100, 101], vec![104]);
    let rounds = data.get_all_rounds();
    assert_eq!(rounds.len(), 24);
    assert!(rounds.contains(&Round { index: 1, show_mister_x: false }));
    assert!(rounds.contains(&Round { index: 3, show_mister_x: true }));
    assert!(rounds.contains(&Round { index: 13, show_mister_x: true }));
    assert!(rounds.contains(&Round { index: 22, show_mister_x: false }));
    assert_eq!(standard_round_schedule(), rounds);
}
