use ecstasy::collector::collection_beatmaps_url;
use ecstasy::collector::collection_info_url;
use ecstasy::mirrors::Beatconnect;
use ecstasy::mirrors::Catboy;
use ecstasy::mirrors::all_mirrors;
use ecstasy::mirrors::FetchOutcome;
use ecstasy::mirrors::Mirror;
use ecstasy::mirrors::MirrorType;
use ecstasy::mirrors::Nerinyan;
use ecstasy::mirrors::OsuDirect;
use ecstasy::mirrors::Sayobot;
use ecstasy::mirrors::UNDECODED_PAYLOAD_MESSAGE;

#[test]
fn mirror_names_and_endpoints() {
    assert_eq!(Catboy.get_name(), "catboy.best");
    assert_eq!(Catboy.get_base_url(), "https://catboy.best/d");
    assert_eq!(Beatconnect.get_name(), "beatconnect.io");
    assert_eq!(Beatconnect.get_base_url(), "https://beatconnect.io/b");
    assert_eq!(Nerinyan.get_name(), "nerinyan.moe");
    assert_eq!(Nerinyan.get_base_url(), "https://api.nerinyan.moe/d");
    assert_eq!(Sayobot.get_name(), "sayobot.cn");
    assert_eq!(Sayobot.get_base_url(), "https://txy1.sayobot.cn/beatmaps/download/full");
    assert_eq!(OsuDirect.get_name(), "osu.direct");
}

#[test]
fn mirror_selection_by_name() {
    assert_eq!(MirrorType::from_name("catboy"), Some(MirrorType::Catboy(Catboy)));
    assert_eq!(MirrorType::from_name("osudirect"), Some(MirrorType::OsuDirect(OsuDirect)));
    assert_eq!(MirrorType::from_name("nerinyan"), Some(MirrorType::Nerinyan(Nerinyan)));
    assert_eq!(MirrorType::from_name("beatconnect"), Some(MirrorType::Beatconnect(Beatconnect)));
    assert_eq!(MirrorType::from_name("sayobot"), Some(MirrorType::Sayobot(Sayobot)));
    assert_eq!(MirrorType::from_name("unknown"), None);
    assert_eq!(MirrorType::from_name("Catboy"), None);
}

#[test]
fn registry_holds_every_mirror_once() {
    let mirrors = all_mirrors();
    assert_eq!(mirrors.len(), 5);
    assert_eq!(mirrors[0], MirrorType::Catboy(Catboy));
    assert_eq!(mirrors[1], MirrorType::OsuDirect(OsuDirect));
    assert_eq!(mirrors[2], MirrorType::Nerinyan(Nerinyan));
    assert_eq!(mirrors[3], MirrorType::Beatconnect(Beatconnect));
    assert_eq!(mirrors[4], MirrorType::Sayobot(Sayobot));
}

#[test]
fn outcomes_describe_themselves() {
    assert_eq!(FetchOutcome::NotFound.describe(), "not found");
    assert_eq!(FetchOutcome::RateLimited.describe(), "rate limited");
    assert_eq!(FetchOutcome::SourceUnavailable.describe(), "source unavailable");
    assert_eq!(FetchOutcome::Success(vec![1]).describe(), "success");
    assert_eq!(
        FetchOutcome::MalformedResponse("boom".to_string()).describe(),
        "boom"
    );
}

#[test]
fn mirror_dispatch_matches_variants() {
    let mirror = MirrorType::Nerinyan(Nerinyan);
    assert_eq!(mirror.get_name(), "nerinyan.moe");
    assert_eq!(mirror.get_base_url(), "https://api.nerinyan.moe/d");
}

#[test]
fn download_urls() {
    let mirror = MirrorType::Catboy(Catboy);
    assert_eq!(mirror.download_url(1030499), "https://catboy.best/d/1030499");
    let mirror = MirrorType::Sayobot(Sayobot);
    assert_eq!(
        mirror.download_url(7),
        "https://txy1.sayobot.cn/beatmaps/download/full/7"
    );
}

#[test]
fn catalog_urls() {
    assert_eq!(
        collection_info_url(5180),
        "https://osucollector.com/api/collections/5180"
    );
    assert_eq!(
        collection_beatmaps_url(5180),
        "https://osucollector.com/api/collections/5180/beatmapsv3"
    );
}

#[test]
fn classifies_status_failures() {
    let mirror = MirrorType::Catboy(Catboy);
    assert!(matches!(
        mirror.classify_response(404, "application/octet-stream", vec![]),
        FetchOutcome::NotFound
    ));
    assert!(matches!(
        mirror.classify_response(403, "text/plain", vec![]),
        FetchOutcome::RateLimited
    ));
    assert!(matches!(
        mirror.classify_response(429, "text/plain", vec![]),
        FetchOutcome::RateLimited
    ));
    assert!(matches!(
        mirror.classify_response(500, "text/plain", vec![]),
        FetchOutcome::SourceUnavailable
    ));
    assert!(matches!(
        mirror.classify_response(503, "text/plain", vec![]),
        FetchOutcome::SourceUnavailable
    ));
}

#[test]
fn classifies_content_as_success() {
    let mirror = MirrorType::Beatconnect(Beatconnect);
    let body = vec![0x50u8, 0x4b, 0x03, 0x04];
    match mirror.classify_response(200, "application/octet-stream", body.clone()) {
        FetchOutcome::Success(bytes) => assert_eq!(bytes, body),
        _ => panic!("content bytes must classify as success"),
    }
}

#[test]
fn decodes_catboy_error_payload() {
    let mirror = MirrorType::Catboy(Catboy);
    let body = b"{\"error\":\"beatmap not on mirror\"}".to_vec();
    match mirror.classify_response(200, "application/json", body) {
        FetchOutcome::MalformedResponse(message) => {
            assert_eq!(message, "beatmap not on mirror");
        }
        _ => panic!("json payload must never classify as content"),
    }
}

#[test]
fn decodes_sayobot_error_payload() {
    let mirror = MirrorType::Sayobot(Sayobot);
    let body = b"{\"message\":\"quota exceeded\"}".to_vec();
    match mirror.classify_response(200, "application/json; charset=utf-8", body) {
        FetchOutcome::MalformedResponse(message) => {
            assert_eq!(message, "quota exceeded");
        }
        _ => panic!("json payload must never classify as content"),
    }
}

#[test]
fn surfaces_whole_payload_for_other_mirrors() {
    let mirror = MirrorType::Nerinyan(Nerinyan);
    let body = b"{\"code\":123}".to_vec();
    match mirror.classify_response(200, "application/json", body) {
        FetchOutcome::MalformedResponse(message) => {
            assert_eq!(message, "{\"code\":123}");
        }
        _ => panic!("json payload must never classify as content"),
    }
}

#[test]
fn undecodable_error_payload_gets_stock_message() {
    let mirror = MirrorType::Catboy(Catboy);
    let body = b"not json at all".to_vec();
    match mirror.classify_response(200, "application/json", body) {
        FetchOutcome::MalformedResponse(message) => {
            assert_eq!(message, UNDECODED_PAYLOAD_MESSAGE);
        }
        _ => panic!("json payload must never classify as content"),
    }
}

#[test]
fn missing_error_field_gets_stock_message() {
    let mirror = MirrorType::Catboy(Catboy);
    let body = b"{\"status\":\"down\"}".to_vec();
    match mirror.classify_response(200, "application/json", body) {
        FetchOutcome::MalformedResponse(message) => {
            assert_eq!(message, UNDECODED_PAYLOAD_MESSAGE);
        }
        _ => panic!("json payload must never classify as content"),
    }
}
