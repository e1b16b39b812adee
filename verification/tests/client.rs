use journald_to_cloudwatch::cloudwatch::{select_log_stream, LogStreamInfo, SequencedAppendClient};
use journald_to_cloudwatch::configuration::Configuration;
use journald_to_cloudwatch::ec2::{get_instance_name, Ec2Instance, InstanceNameError, Reservation, Tag};

fn create_conf() -> Configuration {
    Configuration {
        log_group_name: "myGroup".to_string(),
        log_stream_name: "myStream".to_string(),
        is_debug_mode_enabled: false,
    }
}

fn stream(name: &str, token: Option<&str>) -> LogStreamInfo {
    LogStreamInfo {
        log_stream_name: Some(name.to_string()),
        upload_sequence_token: token.map(|t| t.to_string()),
    }
}

#[test]
fn select_log_stream_takes_the_first_exact_match() {
    let wanted = "myStream".to_string();
    let found = select_log_stream(Some(vec![stream("myStream", Some("tok"))]), &wanted);
    assert_eq!(found, Some(stream("myStream", Some("tok"))));
}

#[test]
fn select_log_stream_rejects_prefix_matches() {
    let wanted = "myStream".to_string();
    // The service matches by prefix; a listing headed by another stream
    // yields nothing, even when the wanted stream appears further down.
    let listing = vec![stream("myStream2", Some("t1")), stream("myStream", Some("t2"))];
    assert_eq!(select_log_stream(Some(listing), &wanted), None);
}

#[test]
fn select_log_stream_handles_missing_streams() {
    let wanted = "myStream".to_string();
    assert_eq!(select_log_stream(None, &wanted), None);
    assert_eq!(select_log_stream(Some(Vec::new()), &wanted), None);
    let unnamed = LogStreamInfo { log_stream_name: None, upload_sequence_token: Some("t".to_string()) };
    assert_eq!(select_log_stream(Some(vec![unnamed]), &wanted), None);
}

#[test]
fn append_success_replaces_the_token() {
    let mut client = SequencedAppendClient::new(create_conf());
    client.resync(Some(stream("myStream", Some("t1"))));
    let missing = client.on_append_success(Some("t2".to_string()));
    assert!(!missing);
    assert_eq!(client.sequence_token, Some("t2".to_string()));
}

#[test]
fn append_success_without_token_keeps_the_stale_one() {
    let mut client = SequencedAppendClient::new(create_conf());
    client.resync(Some(stream("myStream", Some("t1"))));
    let missing = client.on_append_success(None);
    assert!(missing);
    assert_eq!(client.sequence_token, Some("t1".to_string()));
}

#[test]
fn resync_discards_the_stale_token() {
    let mut client = SequencedAppendClient::new(create_conf());
    client.resync(Some(stream("myStream", Some("stale"))));
    assert_eq!(client.sequence_token, Some("stale".to_string()));
    // An append failed; the next token comes from the fresh lookup alone.
    client.resync(Some(stream("myStream", Some("fresh"))));
    assert_eq!(client.sequence_token, Some("fresh".to_string()));
    // A lookup that finds no stream leaves the client with no token at all.
    client.resync(Some(stream("myStream", Some("stale2"))));
    client.resync(None);
    assert_eq!(client.sequence_token, None);
}

#[test]
fn create_then_lookup_yields_the_looked_up_token() {
    let conf = create_conf();
    let mut client = SequencedAppendClient::new(conf);
    assert_eq!(client.sequence_token, None);
    // First lookup: the destination has no such stream yet.
    let wanted = "myStream".to_string();
    let first = select_log_stream(Some(Vec::new()), &wanted);
    assert_eq!(first, None);
    // The stream is created, and the follow-up lookup now finds it.
    let second = select_log_stream(Some(vec![stream("myStream", Some("tok-1"))]), &wanted);
    let expected = second.clone().and_then(|ls| ls.upload_sequence_token);
    client.resync(second);
    assert_eq!(client.sequence_token, expected);
    assert_eq!(client.sequence_token, Some("tok-1".to_string()));
}

#[test]
fn instance_name_comes_from_the_first_valued_name_tag() {
    let tags = vec![
        Tag { key: Some("Color".to_string()), value: Some("blue".to_string()) },
        Tag { key: Some("Name".to_string()), value: None },
        Tag { key: Some("Name".to_string()), value: Some("web-1".to_string()) },
        Tag { key: Some("Name".to_string()), value: Some("web-2".to_string()) },
    ];
    let reservations = vec![Reservation { instances: Some(vec![Ec2Instance { tags: Some(tags) }]) }];
    assert_eq!(get_instance_name(Some(reservations)), Ok("web-1".to_string()));
}

#[test]
fn instance_name_reports_what_the_reply_lacked() {
    assert_eq!(get_instance_name(None), Err(InstanceNameError::MissingReservations));
    assert_eq!(get_instance_name(Some(Vec::new())), Err(InstanceNameError::EmptyReservations));
    assert_eq!(
        get_instance_name(Some(vec![Reservation { instances: None }])),
        Err(InstanceNameError::MissingInstances)
    );
    assert_eq!(
        get_instance_name(Some(vec![Reservation { instances: Some(Vec::new()) }])),
        Err(InstanceNameError::EmptyInstances)
    );
    assert_eq!(
        get_instance_name(Some(vec![Reservation {
            instances: Some(vec![Ec2Instance { tags: None }])
        }])),
        Err(InstanceNameError::MissingTags)
    );
    let tags = vec![
        Tag { key: Some("Color".to_string()), value: Some("blue".to_string()) },
        Tag { key: None, value: Some("stray".to_string()) },
    ];
    assert_eq!(
        get_instance_name(Some(vec![Reservation {
            instances: Some(vec![Ec2Instance { tags: Some(tags) }])
        }])),
        Err(InstanceNameError::MissingNameTag)
    );
}
