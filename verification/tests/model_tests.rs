use imgfloat::model::{ImgfloatAsset, ImgfloatAssetStateMessage, ImgfloatState};

fn asset(id: &str, x: &str, y: &str, w: &str, h: &str, url: &str) -> ImgfloatAsset {
    ImgfloatAsset::new(
        id.to_string(),
        x.to_string(),
        y.to_string(),
        w.to_string(),
        h.to_string(),
        url.to_string(),
    )
    .expect("geometry texts must be number literals")
}

#[test]
fn asset_new_accepts_number_literals() {
    for good in ["0", "-0", "10", "-1.5", "0.25", "1e3", "1E3", "-2.5e-10", "7e+2", "123.456"] {
        assert!(
            ImgfloatAsset::new(
                "a".to_string(),
                good.to_string(),
                "0".to_string(),
                "0".to_string(),
                "0".to_string(),
                "u".to_string(),
            )
            .is_some(),
            "expected {good} to be accepted"
        );
    }
}

#[test]
fn asset_new_rejects_malformed_literals() {
    for bad in ["", "01", "1.", ".5", "1e", "1e+", "--1", "+1", "abc", "0x1", "1 ", " 1", "NaN"] {
        assert!(
            ImgfloatAsset::new(
                "a".to_string(),
                bad.to_string(),
                "0".to_string(),
                "0".to_string(),
                "0".to_string(),
                "u".to_string(),
            )
            .is_none(),
            "expected {bad} to be rejected"
        );
    }
}

#[test]
fn state_wf_checks_every_asset() {
    let ok = ImgfloatState {
        assets: vec![asset("a1", "0", "0", "10", "10", "http://x/i.png")],
    };
    assert!(ok.is_wf());
    let bad = ImgfloatState {
        assets: vec![ImgfloatAsset {
            id: "a1".to_string(),
            x: "bogus".to_string(),
            y: "0".to_string(),
            w: "0".to_string(),
            h: "0".to_string(),
            url: "u".to_string(),
        }],
    };
    assert!(!bad.is_wf());
}

#[test]
fn empty_state_has_no_assets() {
    assert_eq!(ImgfloatState::empty().assets.len(), 0);
}

#[test]
fn clones_preserve_values() {
    let a = asset("a1", "1", "2", "3", "4", "http://x");
    assert_eq!(a.clone(), a);
    let s = ImgfloatState { assets: vec![a] };
    assert_eq!(s.clone(), s);
    let m = ImgfloatAssetStateMessage::New(s);
    assert_eq!(m.clone(), m);
}
