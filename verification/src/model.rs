//! The overlay arrangement model and the delta vocabulary.
//!
//! An [`ImgfloatAsset`] is one floating image: an identifier, four geometry
//! values, and a source URL. The engine never computes on the geometry; it
//! stores and relays it. Each geometry value is therefore carried verbatim
//! as the text of a JSON number literal, and a well-formed asset is one
//! whose geometry texts all satisfy the JSON number grammar.

use vstd::prelude::*;

verus! {

use crate::json::grammar::is_json_number;
use crate::json::read::str_is_json_number;

/// One floating image overlay. `id` is unique within one channel's state by
/// convention only; the engine does not enforce it. The geometry fields
/// hold JSON number literals verbatim.
#[derive(Debug, PartialEq, Eq)]
pub struct ImgfloatAsset {
    pub id: String,
    pub x: String,
    pub y: String,
    pub w: String,
    pub h: String,
    pub url: String,
}

/// The mathematical value of an asset: its six fields as character
/// sequences.
pub ghost struct AssetView {
    pub id: Seq<char>,
    pub x: Seq<char>,
    pub y: Seq<char>,
    pub w: Seq<char>,
    pub h: Seq<char>,
    pub url: Seq<char>,
}

impl View for ImgfloatAsset {
    type V = AssetView;

    open spec fn view(&self) -> AssetView {
        AssetView {
            id: self.id@,
            x: self.x@,
            y: self.y@,
            w: self.w@,
            h: self.h@,
            url: self.url@,
        }
    }
}

/// A well-formed asset carries a valid JSON number literal in each
/// geometry field.
pub open spec fn asset_wf(a: AssetView) -> bool {
    &&& is_json_number(a.x)
    &&& is_json_number(a.y)
    &&& is_json_number(a.w)
    &&& is_json_number(a.h)
}

/// One channel's current arrangement: an ordered sequence of assets.
/// Insertion order is preserved and is the only defined rendering order.
#[derive(Debug, PartialEq, Eq)]
pub struct ImgfloatState {
    pub assets: Vec<ImgfloatAsset>,
}

impl View for ImgfloatState {
    type V = Seq<AssetView>;

    open spec fn view(&self) -> Seq<AssetView> {
        Seq::new(self.assets@.len(), |i: int| self.assets@[i]@)
    }
}

/// A well-formed state is one whose assets are all well-formed.
pub open spec fn state_wf(s: Seq<AssetView>) -> bool {
    forall|i: int| 0 <= i < s.len() ==> asset_wf(#[trigger] s[i])
}

/// A well-formed delta message carries well-formed payloads.
pub open spec fn message_wf(m: MessageView) -> bool {
    match m {
        MessageView::New(v) => state_wf(v),
        MessageView::Update(a) => asset_wf(a),
        MessageView::Delete(_) => true,
    }
}

/// The delta vocabulary a writer submits: replace the whole arrangement,
/// merge one asset's fields by id, or remove all assets with an id.
#[derive(Debug, PartialEq, Eq)]
pub enum ImgfloatAssetStateMessage {
    New(ImgfloatState),
    Update(ImgfloatAsset),
    Delete(String),
}

/// The mathematical value of a delta message.
pub ghost enum MessageView {
    New(Seq<AssetView>),
    Update(AssetView),
    Delete(Seq<char>),
}

impl View for ImgfloatAssetStateMessage {
    type V = MessageView;

    open spec fn view(&self) -> MessageView {
        match self {
            ImgfloatAssetStateMessage::New(s) => MessageView::New(s@),
            ImgfloatAssetStateMessage::Update(a) => MessageView::Update(a@),
            ImgfloatAssetStateMessage::Delete(id) => MessageView::Delete(id@),
        }
    }
}

impl Clone for ImgfloatAsset {
    fn clone(&self) -> (res: Self)
        ensures
            res == *self,
    {
        ImgfloatAsset {
            id: self.id.clone(),
            x: self.x.clone(),
            y: self.y.clone(),
            w: self.w.clone(),
            h: self.h.clone(),
            url: self.url.clone(),
        }
    }
}

impl Clone for ImgfloatState {
    fn clone(&self) -> (res: Self)
        ensures
            res@ == self@,
    {
        let mut assets: Vec<ImgfloatAsset> = Vec::new();
        let mut i: usize = 0;
        while i < self.assets.len()
            invariant
                i <= self.assets@.len(),
                assets@ =~= self.assets@.subrange(0, i as int),
            decreases self.assets@.len() - i,
        {
            assets.push(self.assets[i].clone());
            i = i + 1;
        }
        proof {
            assert(assets@ =~= self.assets@);
        }
        ImgfloatState { assets }
    }
}

impl Clone for ImgfloatAssetStateMessage {
    fn clone(&self) -> (res: Self)
        ensures
            res@ == self@,
    {
        match self {
            ImgfloatAssetStateMessage::New(s) => ImgfloatAssetStateMessage::New(s.clone()),
            ImgfloatAssetStateMessage::Update(a) => ImgfloatAssetStateMessage::Update(a.clone()),
            ImgfloatAssetStateMessage::Delete(id) => ImgfloatAssetStateMessage::Delete(id.clone()),
        }
    }
}

impl ImgfloatAsset {
    /// A checked constructor: accepts the fields exactly when every
    /// geometry text is a JSON number literal.
    pub fn new(id: String, x: String, y: String, w: String, h: String, url: String) -> (r: Option<
        ImgfloatAsset,
    >)
        ensures
            r is Some <==> asset_wf(
                AssetView { id: id@, x: x@, y: y@, w: w@, h: h@, url: url@ },
            ),
            r is Some ==> r->0@ == (AssetView { id: id@, x: x@, y: y@, w: w@, h: h@, url: url@ }),
    {
        if str_is_json_number(x.as_str()) && str_is_json_number(y.as_str())
            && str_is_json_number(w.as_str()) && str_is_json_number(h.as_str()) {
            Some(ImgfloatAsset { id, x, y, w, h, url })
        } else {
            None
        }
    }
}

impl ImgfloatState {
    /// The empty arrangement.
    pub fn empty() -> (r: ImgfloatState)
        ensures
            r@ == Seq::<AssetView>::empty(),
    {
        let r = ImgfloatState { assets: Vec::new() };
        proof {
            assert(r@ =~= Seq::<AssetView>::empty());
        }
        r
    }

    /// Whether every asset in the state is well-formed.
    pub fn is_wf(&self) -> (b: bool)
        ensures
            b == state_wf(self@),
    {
        let mut i: usize = 0;
        while i < self.assets.len()
            invariant
                i <= self.assets@.len(),
                self@.len() == self.assets@.len(),
                forall|j: int| 0 <= j < i ==> asset_wf(#[trigger] self@[j]),
            decreases self.assets@.len() - i,
        {
            let a = &self.assets[i];
            let ok = str_is_json_number(a.x.as_str()) && str_is_json_number(a.y.as_str())
                && str_is_json_number(a.w.as_str()) && str_is_json_number(a.h.as_str());
            if !ok {
                assert(!asset_wf(self@[i as int]));
                return false;
            }
            assert(asset_wf(self@[i as int]));
            i = i + 1;
        }
        true
    }
}

} // verus!
