use lernie::place::{aim_from, at, keep_readable, place_of_text, Place};
use lernie::ui::{Aim, Engines, Model};

fn seated() -> Model {
    Model {
        aim: Some(Aim { channel: "(this box's own engine)".to_owned(), address: "home".to_owned() }),
        engines: Engines {
            open: None,
            opened: vec![("lab".to_owned(), 7)],
            aimed: vec![("lab".to_owned(), "bench".to_owned())],
        },
        dragged: Some(240),
    }
}

#[test]
fn the_place_is_a_projection_of_the_model_and_not_a_stored_copy() {
    let mut model = seated();
    model.engines.open = Some("(this box's own engine)".to_owned());
    let held = Place::of(&model);
    assert_eq!(held.aim, model.aim);
    assert_eq!(held.engines, model.engines);
    assert_eq!(held.dragged, model.dragged);
}

#[test]
fn the_place_is_kept_under_the_state_root() {
    assert_eq!(at("/s/lernie"), "/s/lernie/place.json");
}

#[test]
fn a_half_written_aim_is_no_aim() {
    assert_eq!(aim_from(Some("c".into()), None), None);
    assert_eq!(aim_from(None, Some("a".into())), None);
    assert_eq!(
        aim_from(Some("c".into()), Some("a".into())),
        Some(Aim { channel: "c".into(), address: "a".into() })
    );
}

#[test]
fn one_unreadable_row_costs_one_row() {
    let rows = vec![("a".to_owned(), Some(1u64)), ("b".to_owned(), None), ("c".to_owned(), Some(3))];
    assert_eq!(keep_readable(rows), vec![("a".to_owned(), 1), ("c".to_owned(), 3)]);
}

#[test]
fn an_empty_place_is_the_default() {
    let p = Place::default();
    assert_eq!(p.aim, None);
    assert_eq!(p.engines.opened, vec![]);
    assert_eq!(p.dragged, None);
}

fn pointed() -> Place {
    Place {
        aim: Some(Aim { channel: "(this box's own engine)".to_owned(), address: "home".to_owned() }),
        engines: Engines::default(),
        dragged: None,
    }
}

#[test]
fn a_file_that_names_no_edge_reads_back_as_no_drag_at_all() {
    let text = r#"{"aim": {"channel": "(this box's own engine)", "address": "home"}}"#;
    assert_eq!(place_of_text(text), pointed());
}

#[test]
fn nothing_a_file_can_be_wrong_about_refuses() {
    for body in [
        "",
        "not json",
        "[]",
        "{}",
        r#"{"aim": null}"#,
        r#"{"aim": {}}"#,
        r#"{"aim": {"channel": "own"}}"#,
        r#"{"aim": {"address": "home"}}"#,
        r#"{"aim": {"channel": 7, "address": "home"}}"#,
        r#"{"open": 7, "opened": [], "aimed": "lab"}"#,
        r#"{"list_width": "wide"}"#,
        r#"{"list_width": null}"#,
        r#"{"roster_width": 360.5, "convs_width": 240.0}"#,
        r#"{"composer_rows": 900}"#,
        r#"{"composer_rows": -1}"#,
        r#"{"composer_rows": 3.5}"#,
        r#"{"dragged": 70000}"#,
        r#"{"dragged": -3}"#,
    ] {
        assert_eq!(place_of_text(body), Place::default(), "{body}");
    }
}

#[test]
fn a_row_this_build_cannot_read_costs_one_row_and_not_the_table() {
    let held = place_of_text(
        r#"{"opened": {"lab": 7, "home": "whenever"},
            "aimed": {"lab": "bench", "home": 3}}"#,
    );
    assert_eq!(held.engines.opened, vec![("lab".to_owned(), 7)]);
    assert_eq!(held.engines.aimed, vec![("lab".to_owned(), "bench".to_owned())]);
}

#[test]
fn an_unknown_key_is_ignored_so_the_next_fact_is_a_key_and_not_a_format() {
    let text = r#"{"aim": {"channel": "(this box's own engine)", "address": "home",
                    "scrolled_to": 42}, "draft": "not read yet"}"#;
    assert_eq!(place_of_text(text), pointed());
}

#[test]
fn the_accordion_and_the_drag_come_back_from_the_file() {
    let held = place_of_text(
        r#"{"open": "lab", "opened": {"lab": 7, "home": 3}, "aimed": {"lab": "bench"}, "dragged": 240}"#,
    );
    assert_eq!(held.engines.open, Some("lab".to_owned()));
    assert_eq!(held.engines.opened, vec![("home".to_owned(), 3), ("lab".to_owned(), 7)]);
    assert_eq!(held.engines.aimed, vec![("lab".to_owned(), "bench".to_owned())]);
    assert_eq!(held.dragged, Some(240));
}
