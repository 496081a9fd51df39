use imgfloat::model::{ImgfloatAsset, ImgfloatState};

fn asset(id: &str, x: &str, y: &str, w: &str, h: &str, url: &str) -> ImgfloatAsset {
    ImgfloatAsset::new(
        id.to_string(),
        x.to_string(),
        y.to_string(),
        w.to_string(),
        h.to_string(),
        url.to_string(),
    )
    .expect("geometry texts must be number literals")
}

fn two_assets() -> ImgfloatState {
    ImgfloatState {
        assets: vec![
            asset("a1", "0", "0", "10", "10", "http://x/a.png"),
            asset("a2", "5", "5", "20", "20", "http://x/b.png"),
        ],
    }
}

#[test]
fn update_overwrites_matching_asset_in_place() {
    let mut state = two_assets();
    state.apply_update(&asset("a2", "7", "8", "9", "10", "http://x/c.png"));
    assert_eq!(state.assets.len(), 2);
    assert_eq!(state.assets[0], asset("a1", "0", "0", "10", "10", "http://x/a.png"));
    assert_eq!(state.assets[1].id, "a2");
    assert_eq!(state.assets[1].x, "7");
    assert_eq!(state.assets[1].y, "8");
    assert_eq!(state.assets[1].w, "9");
    assert_eq!(state.assets[1].h, "10");
    assert_eq!(state.assets[1].url, "http://x/c.png");
}

#[test]
fn update_keeps_order_and_length() {
    let mut state = two_assets();
    state.apply_update(&asset("a1", "-1", "-2", "3", "4", "http://x/z.png"));
    let ids: Vec<&str> = state.assets.iter().map(|a| a.id.as_str()).collect();
    assert_eq!(ids, vec!["a1", "a2"]);
}

#[test]
fn update_of_unknown_id_is_a_no_op() {
    let mut state = two_assets();
    let before = state.clone();
    state.apply_update(&asset("a3", "7", "8", "9", "10", "http://x/c.png"));
    assert_eq!(state, before);
}

#[test]
fn update_touches_only_the_first_match() {
    let mut state = ImgfloatState {
        assets: vec![
            asset("dup", "1", "1", "1", "1", "http://x/1"),
            asset("dup", "2", "2", "2", "2", "http://x/2"),
        ],
    };
    state.apply_update(&asset("dup", "9", "9", "9", "9", "http://x/9"));
    assert_eq!(state.assets[0].x, "9");
    assert_eq!(state.assets[1].x, "2");
}

#[test]
fn delete_removes_all_matching_assets() {
    let mut state = ImgfloatState {
        assets: vec![
            asset("dup", "1", "1", "1", "1", "http://x/1"),
            asset("a2", "2", "2", "2", "2", "http://x/2"),
            asset("dup", "3", "3", "3", "3", "http://x/3"),
        ],
    };
    state.apply_delete(&"dup".to_string());
    assert_eq!(state.assets.len(), 1);
    assert_eq!(state.assets[0].id, "a2");
}

#[test]
fn delete_of_absent_id_leaves_state_unchanged() {
    let mut state = two_assets();
    let before = state.clone();
    state.apply_delete(&"missing".to_string());
    assert_eq!(state, before);
}

#[test]
fn delete_on_empty_state_is_a_no_op() {
    let mut state = ImgfloatState::empty();
    state.apply_delete(&"a1".to_string());
    assert_eq!(state, ImgfloatState::empty());
}
