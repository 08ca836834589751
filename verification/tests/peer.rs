use file_identifier::peer::{MetadataMap, PeerId, PeerMetadata};

fn peer_id() -> PeerId {
    PeerId { id: "6c5a2f9b".to_string() }
}

#[test]
fn metadata_map_stores_and_finds_bindings() {
    let mut map = MetadataMap::new();
    map.insert("name".to_string(), "office".to_string());
    map.insert("version".to_string(), "0.1.0".to_string());
    assert_eq!(map.get(&"name".to_string()), Some(&"office".to_string()));
    assert_eq!(map.get(&"version".to_string()), Some(&"0.1.0".to_string()));
    assert_eq!(map.get(&"missing".to_string()), None);
}

#[test]
fn from_hashmap_reads_name_and_version() {
    let mut map = MetadataMap::new();
    map.insert("name".to_string(), "office".to_string());
    map.insert("version".to_string(), "0.1.0".to_string());
    let metadata = PeerMetadata::from_hashmap(&peer_id(), &map);
    assert_eq!(metadata.name, "office".to_string());
    assert_eq!(metadata.version, Some("0.1.0".to_string()));
}

#[test]
fn from_hashmap_falls_back_to_the_peer_id_text() {
    let map = MetadataMap::new();
    let metadata = PeerMetadata::from_hashmap(&peer_id(), &map);
    assert_eq!(metadata.name, "6c5a2f9b".to_string());
    assert_eq!(metadata.version, None);
}

#[test]
fn to_hashmap_writes_name_and_version() {
    let metadata = PeerMetadata { name: "office".to_string(), version: Some("0.1.0".to_string()) };
    let map = metadata.to_hashmap();
    assert_eq!(map.get(&"name".to_string()), Some(&"office".to_string()));
    assert_eq!(map.get(&"version".to_string()), Some(&"0.1.0".to_string()));
}

#[test]
fn to_hashmap_omits_a_missing_version() {
    let metadata = PeerMetadata { name: "office".to_string(), version: None };
    let map = metadata.to_hashmap();
    assert_eq!(map.get(&"name".to_string()), Some(&"office".to_string()));
    assert_eq!(map.get(&"version".to_string()), None);
}

#[test]
fn metadata_survives_a_round_trip_through_the_table() {
    let metadata = PeerMetadata { name: "office".to_string(), version: Some("0.1.0".to_string()) };
    let map = metadata.clone().to_hashmap();
    let back = PeerMetadata::from_hashmap(&peer_id(), &map);
    assert_eq!(back, metadata);
}
