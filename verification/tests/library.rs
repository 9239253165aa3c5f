use schedmap::boundary::MultiPartBoundry;
use schedmap::employees::{read_employee_records, EmployeeBadgeIn, EmployeeRecord};
use schedmap::routes::{appvariables_js, decimal_string};
use schedmap::state::{DEFAULT_MAP_SVG, GCS, NO_MAP_PLACEHOLDER};
use schedmap::version::{get_version_string, BuildInfo};
use schedmap::websockets::{handle_incoming, WsAction};

fn bare_build(version: &str) -> BuildInfo {
    BuildInfo {
        version: version.to_string(),
        git_hash: None,
        compile_date: None,
        linux_user: None,
        win_user: None,
        linux_host: None,
        win_host: None,
    }
}

fn fresh_state() -> GCS {
    GCS::new("/tmp/schedmap".to_string(), None, vec![])
}

const CLEAR_INPUT: &str = "\ndocument.getElementById('badge_id_input').value = '';\n";
const FLASH_GREEN: &str = "\ndocument.body.style.background = 'green';\nsetTimeout(function() { document.body.style.background = ''; }, 2 * 1000);\n";
const FLASH_YELLOW: &str = "\ndocument.body.style.background = 'yellow';\nsetTimeout(function() { document.body.style.background = ''; }, 2 * 1000);\n";

#[test]
fn version_string_defaults() {
    let info = bare_build("0.1.0");
    assert_eq!(
        get_version_string(&info),
        "Version 0.1.0 hash NONE, compiled by USERNAME on HOSTNAME at UNK"
    );
}

#[test]
fn version_string_prefers_linux_then_windows() {
    let mut info = bare_build("1.2.3");
    info.git_hash = Some("abc123".to_string());
    info.compile_date = Some("2019-05-01".to_string());
    info.win_user = Some("winuser".to_string());
    info.win_host = Some("WINBOX".to_string());
    assert_eq!(
        get_version_string(&info),
        "Version 1.2.3 hash abc123, compiled by winuser on WINBOX at 2019-05-01"
    );
    info.linux_user = Some("jeffrey".to_string());
    info.linux_host = Some("arch".to_string());
    assert_eq!(
        get_version_string(&info),
        "Version 1.2.3 hash abc123, compiled by jeffrey on arch at 2019-05-01"
    );
}

#[test]
fn boundary_from_content_type() {
    assert_eq!(
        MultiPartBoundry::from_content_type(Some("multipart/form-data; boundary=----WebKitFormBoundary7MA4")),
        MultiPartBoundry::Value("----WebKitFormBoundary7MA4".to_string())
    );
    assert_eq!(MultiPartBoundry::from_content_type(None), MultiPartBoundry::Unk);
    assert_eq!(MultiPartBoundry::from_content_type(Some("text/plain")), MultiPartBoundry::Unk);
    assert_eq!(
        MultiPartBoundry::from_content_type(Some("a; boundary=x; boundary=y")),
        MultiPartBoundry::Value("x; ".to_string())
    );
    assert_eq!(
        MultiPartBoundry::from_content_type(Some("boundary=")),
        MultiPartBoundry::Value(String::new())
    );
}

#[test]
fn boundary_to_string() {
    assert_eq!(MultiPartBoundry::Value("xyz".to_string()).to_string(), "xyz");
    assert_eq!(MultiPartBoundry::Unk.to_string(), "");
}

#[test]
fn connect_counts_machine_and_announces_version() {
    let mut gcs = fresh_state();
    let actions = handle_incoming(&mut gcs, &"browser-has-connected".to_string(), &"V1".to_string());
    assert_eq!(gcs.num_connected_machines, 1);
    assert_eq!(
        actions,
        vec![WsAction::Reply(
            "var m = document.getElementById('versionmessage'); if (m) { m.innerHTML = 'V1'; } ".to_string()
        )]
    );
}

#[test]
fn connect_colours_occupied_locations() {
    let mut gcs = fresh_state();
    gcs.badged_in_employee_ids.push(EmployeeBadgeIn {
        employee_badge_id: "7".to_string(),
        employee_location: Some("lab".to_string()),
    });
    gcs.badged_in_employee_ids.push(EmployeeBadgeIn::new("8".to_string()));
    gcs.badged_in_employee_ids.push(EmployeeBadgeIn {
        employee_badge_id: "9".to_string(),
        employee_location: Some("hall".to_string()),
    });
    let actions = handle_incoming(&mut gcs, &"browser-has-connected".to_string(), &"V".to_string());
    assert_eq!(actions.len(), 3);
    assert_eq!(actions[0], WsAction::Reply("change_map_svg_elm_color('lab', 'green');".to_string()));
    assert_eq!(actions[1], WsAction::Reply("change_map_svg_elm_color('hall', 'green');".to_string()));
    assert_eq!(gcs.badged_in_employee_ids.len(), 3);
}

#[test]
fn badge_read_arrives_then_leaves() {
    let mut gcs = fresh_state();
    let version = "V".to_string();
    let actions = handle_incoming(&mut gcs, &"read-id:1234:room1".to_string(), &version);
    assert_eq!(
        actions,
        vec![
            WsAction::Reply(CLEAR_INPUT.to_string()),
            WsAction::Broadcast("change_map_svg_elm_color('room1', 'green');".to_string()),
            WsAction::Reply(FLASH_GREEN.to_string()),
        ]
    );
    assert_eq!(gcs.badged_in_employee_ids.len(), 1);
    assert_eq!(gcs.badged_in_employee_ids[0].employee_badge_id, "1234");
    assert_eq!(gcs.badged_in_employee_ids[0].employee_location, Some("room1".to_string()));

    let actions = handle_incoming(&mut gcs, &"read-id:1234:room2".to_string(), &version);
    assert_eq!(
        actions,
        vec![
            WsAction::Reply(CLEAR_INPUT.to_string()),
            WsAction::Broadcast("change_map_svg_elm_color('room2', 'yellow');".to_string()),
            WsAction::Reply(FLASH_YELLOW.to_string()),
        ]
    );
    assert!(gcs.badged_in_employee_ids.is_empty());
    assert_eq!(gcs.num_connected_machines, 0);
}

#[test]
fn badge_read_leaves_only_that_employee() {
    let mut gcs = fresh_state();
    let version = "V".to_string();
    handle_incoming(&mut gcs, &"read-id:1:a".to_string(), &version);
    handle_incoming(&mut gcs, &"read-id:2:b".to_string(), &version);
    handle_incoming(&mut gcs, &"read-id:3:c".to_string(), &version);
    handle_incoming(&mut gcs, &"read-id:2:z".to_string(), &version);
    let ids: Vec<&str> = gcs.badged_in_employee_ids.iter().map(|e| e.employee_badge_id.as_str()).collect();
    assert_eq!(ids, vec!["1", "3"]);
}

#[test]
fn badge_read_splits_at_first_two_colons() {
    let mut gcs = fresh_state();
    let actions = handle_incoming(&mut gcs, &"scan:read-id:5:loc".to_string(), &"V".to_string());
    assert_eq!(gcs.badged_in_employee_ids[0].employee_badge_id, "read-id");
    assert_eq!(gcs.badged_in_employee_ids[0].employee_location, Some("5:loc".to_string()));
    assert_eq!(actions[1], WsAction::Broadcast("change_map_svg_elm_color('5:loc', 'green');".to_string()));
}

#[test]
fn other_messages_are_relayed() {
    let mut gcs = fresh_state();
    let actions = handle_incoming(&mut gcs, &"hello: world".to_string(), &"V".to_string());
    assert_eq!(actions, vec![WsAction::Broadcast("hello: world".to_string())]);
    assert!(gcs.badged_in_employee_ids.is_empty());
    assert_eq!(gcs.num_connected_machines, 0);
}

#[test]
fn visitor_counter_wraps_at_255() {
    let mut gcs = fresh_state();
    gcs.record_visit();
    assert_eq!(gcs.num_visitors, 1);
    gcs.num_visitors = 254;
    gcs.record_visit();
    assert_eq!(gcs.num_visitors, 0);
}

#[test]
fn connected_machines_wrap_like_u16() {
    let mut gcs = fresh_state();
    gcs.change_connected_machines(-1);
    assert_eq!(gcs.num_connected_machines, 65535);
    gcs.change_connected_machines(1);
    assert_eq!(gcs.num_connected_machines, 0);
    gcs.change_connected_machines(70000);
    assert_eq!(gcs.num_connected_machines, 4464);
    gcs.change_connected_machines(-70000);
    assert_eq!(gcs.num_connected_machines, 0);
}

#[test]
fn new_state_uses_stored_or_default_map() {
    let gcs = fresh_state();
    assert_eq!(gcs.svg_map.as_deref(), Some(DEFAULT_MAP_SVG));
    assert_eq!(gcs.num_visitors, 0);
    assert_eq!(gcs.data_dir.as_deref(), Some("/tmp/schedmap"));
    let gcs = GCS::new("d".to_string(), Some("<svg/>".to_string()), vec![]);
    assert_eq!(gcs.svg_map.as_deref(), Some("<svg/>"));
}

#[test]
fn map_route_serves_map_or_placeholder() {
    let mut gcs = GCS::new("d".to_string(), Some("<svg/>".to_string()), vec![]);
    assert_eq!(gcs.map_svg_or_placeholder(), "<svg/>");
    gcs.svg_map = None;
    assert_eq!(gcs.map_svg_or_placeholder(), NO_MAP_PLACEHOLDER);
}

#[test]
fn room_ids_are_rect_start_tags() {
    let svg = r#"<?xml version="1.0"?>
<svg xmlns="http://www.w3.org/2000/svg">
  <rect id="room1" x="1" y="2"></rect>
  <rect id="room2"/>
  <g id="group"><rect width="3" id="room3">text</rect></g>
</svg>"#;
    let gcs = GCS::new("d".to_string(), Some(svg.to_string()), vec![]);
    assert_eq!(gcs.get_map_room_ids(), vec!["room1".to_string(), "room3".to_string()]);
    assert_eq!(gcs.try_get_map_room_ids(), Some(vec!["room1".to_string(), "room3".to_string()]));
}

#[test]
fn default_map_has_no_rooms() {
    let gcs = fresh_state();
    assert_eq!(gcs.get_map_room_ids(), Vec::<String>::new());
    let mut gcs = fresh_state();
    gcs.svg_map = None;
    assert_eq!(gcs.try_get_map_room_ids(), Some(vec![]));
}

#[test]
fn broken_map_cannot_be_read_for_rooms() {
    let gcs = GCS::new("d".to_string(), Some("<svg><rect id=\"a\"></g></svg>".to_string()), vec![]);
    assert_eq!(gcs.try_get_map_room_ids(), None);
}

#[test]
fn employee_csv_skips_header_and_bad_rows() {
    let records = read_employee_records(b"badge,name\n1001,Alice\n1002\n1003,Carl\n");
    let pairs: Vec<(String, String)> =
        records.iter().map(|r| (r.employee_badge_id.clone(), r.employee_name.clone())).collect();
    assert_eq!(
        pairs,
        vec![("1001".to_string(), "Alice".to_string()), ("1003".to_string(), "Carl".to_string())]
    );
    assert!(read_employee_records(b"").is_empty());
    assert!(read_employee_records(b"badge,name\n").is_empty());
}

#[test]
fn employee_name_lookup() {
    let known = vec![
        EmployeeRecord::new("1".to_string(), "Ann".to_string()),
        EmployeeRecord::new("2".to_string(), "Bo".to_string()),
        EmployeeRecord::new("2".to_string(), "Other".to_string()),
    ];
    let gcs = GCS::new("d".to_string(), None, known);
    assert_eq!(gcs.get_employee_name(&"2".to_string()), Some("Bo".to_string()));
    assert_eq!(gcs.get_employee_name(&"3".to_string()), None);
}

#[test]
fn employees_compare_by_badge_id() {
    let a = EmployeeBadgeIn { employee_badge_id: "1".to_string(), employee_location: Some("x".to_string()) };
    assert!(a == EmployeeBadgeIn::new("1".to_string()));
    assert!(a != EmployeeBadgeIn::new("2".to_string()));
    assert!(EmployeeRecord::new("1".to_string(), "A".to_string()) == EmployeeRecord::new("1".to_string(), "B".to_string()));
}

#[test]
fn app_variables_script() {
    let js = appvariables_js(8001, &vec!["a".to_string(), "b\"c".to_string()]);
    assert_eq!(js, "\nwindow.websocket_port = 8001;\nwindow.map_room_ids = [\"a\", \"b\\\"c\"];\n");
    assert_eq!(appvariables_js(0, &vec![]), "\nwindow.websocket_port = 0;\nwindow.map_room_ids = [];\n");
}

#[test]
fn decimal_rendering() {
    assert_eq!(decimal_string(0), "0");
    assert_eq!(decimal_string(9), "9");
    assert_eq!(decimal_string(10), "10");
    assert_eq!(decimal_string(65535), "65535");
}
