use game::data::{Connection, StationType};
use game::map_text::{parse_connection_line, parse_connections, parse_number, parse_station_line, parse_stations, split_bytes};

#[test]
fn splits_keep_empty_pieces() {
    assert_eq!(split_bytes(b"a b", b' '), vec![b"a".to_vec(), b"b".to_vec()]);
    assert_eq!(split_bytes(b"a\n", b'\n'), vec![b"a".to_vec(), vec![]]);
    assert_eq!(split_bytes(b"", b'\n'), vec![Vec::<u8>::new()]);
}

#[test]
fn numbers_are_bounded() {
    assert_eq!(parse_number(&b"255".to_vec(), 255), Some(255));
    assert_eq!(parse_number(&b"256".to_vec(), 255), None);
    assert_eq!(parse_number(&b"007".to_vec(), 255), Some(7));
    assert_eq!(parse_number(&b"".to_vec(), 255), None);
    assert_eq!(parse_number(&b"1a".to_vec(), 255), None);
    assert_eq!(parse_number(&b"4294967295".to_vec(), u32::MAX), Some(u32::MAX));
    assert_eq!(parse_number(&b"4294967296".to_vec(), u32::MAX), None);
}

#[test]
fn reads_edge_lists() {
    let text = b"100 106 taxi\n\n104 120 water\n110 106 bus\n103 109 underground\n";
    assert_eq!(
        parse_connections(text),
        Some(vec![
            Connection { from: 100, to: 106, mode: StationType::Taxi },
            Connection { from: 104, to: 120, mode: StationType::Water },
            Connection { from: 110, to: 106, mode: StationType::Bus },
            Connection { from: 103, to: 109, mode: StationType::Underground },
        ])
    );
    assert_eq!(parse_connections(b"100 106 boat\n"), None);
    assert_eq!(parse_connections(b"100 106\n"), None);
    assert_eq!(parse_connections(b"100 300 taxi"), None);
    assert_eq!(parse_connection_line(&b"1 2 bus".to_vec()), Some(Connection { from: 1, to: 2, mode: StationType::Bus }));
    assert_eq!(parse_connection_line(&b"1  2 bus".to_vec()), None);
}

#[test]
fn reads_station_lists() {
    let stations = parse_stations(b"1 100 200 taxi,bus\n2 5 6 underground\n").unwrap();
    assert_eq!(stations.len(), 2);
    assert_eq!((stations[0].id, stations[0].pos_x, stations[0].pos_y), (1, 100, 200));
    assert_eq!(stations[0].types, vec![StationType::Taxi, StationType::Bus]);
    assert_eq!(stations[1].types, vec![StationType::Underground]);
    assert!(parse_stations(b"1 100 200 taxi,water\n").is_none());
    assert!(parse_stations(b"1 100 taxi\n").is_none());
    assert!(parse_station_line(&b"300 1 1 taxi".to_vec()).is_none());
}
