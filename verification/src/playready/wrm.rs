//! Reading a WRM header from its XML events: a state machine over the element the reader
//! stands in.

use vstd::prelude::*;
use vstd::string::StringExecFns;
use crate::playready::types::{
    spec_data_view, spec_kid_view, spec_kids_view, spec_opt_protect_info_view, spec_opt_view, KidView, PlayReadyKid,
    ParseError, ProtectInfo, ProtectInfoView, WRMData, WRMHeader, WrmDataView,
};
use crate::playready::xml::XmlEvent;
use crate::query_codec::{parse_u32, spec_u32_text};
use crate::text::{push_char, push_str, str_equals_text};
use crate::bytes::utf8_string;
use vstd::utf8::{decode_utf8, valid_utf8};

verus! {

/// Which element holds a KID being read.
#[derive(Debug, PartialEq, Eq, Structural, Clone, Copy)]
pub enum KidParent {
    Kids,
    ProtectInfo,
    WrmData,
}

/// The element the reader stands in.
#[derive(Debug, PartialEq, Eq, Structural, Clone, Copy)]
pub enum Element {
    Header,
    Data,
    Kid(KidParent),
    ProtectInfo,
    Checksum,
    LaUrl,
    LuiUrl,
    DsId,
    CustomAttributes,
    DecryptorSetup,
    KeyLen,
    AlgId,
    Kids,
}

/// The element that an element's end tag returns the reader to.
pub open spec fn spec_close(e: Element) -> Element {
    match e {
        Element::Header => Element::Header,
        Element::Data => Element::Header,
        Element::Kid(KidParent::Kids) => Element::Kids,
        Element::Kid(KidParent::ProtectInfo) => Element::ProtectInfo,
        Element::Kid(KidParent::WrmData) => Element::Data,
        Element::KeyLen => Element::ProtectInfo,
        Element::AlgId => Element::ProtectInfo,
        Element::Kids => Element::ProtectInfo,
        _ => Element::Data,
    }
}

impl Element {
    /// Returns to the element that encloses this one.
    pub fn close(&mut self)
        ensures
            *final(self) == spec_close(*old(self)),
    {
        *self = match *self {
            Element::Header => Element::Header,
            Element::Data => Element::Header,
            Element::Kid(KidParent::Kids) => Element::Kids,
            Element::Kid(KidParent::ProtectInfo) => Element::ProtectInfo,
            Element::Kid(KidParent::WrmData) => Element::Data,
            Element::KeyLen => Element::ProtectInfo,
            Element::AlgId => Element::ProtectInfo,
            Element::Kids => Element::ProtectInfo,
            _ => Element::Data,
        };
    }
}

/// An XML event as plain values.
pub enum EventView {
    Start(Seq<char>, Seq<(Seq<char>, Seq<char>)>),
    End(Seq<char>),
    Text(Seq<char>),
    CData(Seq<char>),
    Reference(Seq<char>),
    Eof,
    Other,
}

pub open spec fn spec_event_view(e: XmlEvent) -> EventView {
    match e {
        XmlEvent::Start { name, attributes } => EventView::Start(
            name@,
            attributes@.map_values(|a: (String, String)| (a.0@, a.1@)),
        ),
        XmlEvent::End { name } => EventView::End(name@),
        XmlEvent::Text { content } => EventView::Text(content@),
        XmlEvent::CData { content } => EventView::CData(content@),
        XmlEvent::Reference { name } => EventView::Reference(name@),
        XmlEvent::Eof => EventView::Eof,
        XmlEvent::Other => EventView::Other,
    }
}

/// The text an event contributes to a text element: character data, CDATA, or a
/// reference as written (`&name;`); `None` for any other event.
pub open spec fn spec_event_text(e: EventView) -> Option<Seq<char>> {
    match e {
        EventView::Text(t) => Some(t),
        EventView::CData(t) => Some(t),
        EventView::Reference(n) => Some(seq!['&'] + n + seq![';']),
        _ => None,
    }
}

/// A text field once `t` has been read into it: appended where it has text already.
pub open spec fn spec_append(field: Option<Seq<char>>, t: Seq<char>) -> Option<Seq<char>> {
    match field {
        Some(v) => Some(v + t),
        None => Some(t),
    }
}

/// The KID that the first `n` attributes of a KID start tag describe: the last VALUE,
/// ALGID and CHECKSUM of them.
pub open spec fn spec_key_id(attrs: Seq<(Seq<char>, Seq<char>)>, n: int) -> KidView
    decreases n,
{
    if n <= 0 {
        KidView { value: None, algid: None, checksum: None }
    } else {
        let k = spec_key_id(attrs, n - 1);
        let (key, value) = attrs[n - 1];
        if key == "VALUE"@ {
            KidView { value: Some(value), ..k }
        } else if key == "ALGID"@ {
            KidView { algid: Some(value), ..k }
        } else if key == "CHECKSUM"@ {
            KidView { checksum: Some(value), ..k }
        } else {
            k
        }
    }
}

/// The value of the last of the first `n` attributes named `key`, or `current`.
pub open spec fn spec_last_attr(attrs: Seq<(Seq<char>, Seq<char>)>, n: int, key: Seq<char>, current: Option<Seq<char>>) -> Option<Seq<char>>
    decreases n,
{
    if n <= 0 {
        current
    } else if attrs[n - 1].0 == key {
        Some(attrs[n - 1].1)
    } else {
        spec_last_attr(attrs, n - 1, key, current)
    }
}

/// What the reader holds between events.
pub struct WrmState {
    pub element: Element,
    pub xmlns: Option<String>,
    pub version: Option<String>,
    pub data_found: bool,
    pub data: WRMData,
    pub kid: Option<PlayReadyKid>,
    pub protect_info: Option<ProtectInfo>,
}

/// What the reader holds, as plain values.
pub struct WrmStateView {
    pub element: Element,
    pub xmlns: Option<Seq<char>>,
    pub version: Option<Seq<char>>,
    pub data_found: bool,
    pub data: WrmDataView,
    pub kid: Option<KidView>,
    pub protect_info: Option<ProtectInfoView>,
}

pub open spec fn spec_state_view(s: WrmState) -> WrmStateView {
    WrmStateView {
        element: s.element,
        xmlns: spec_opt_view(s.xmlns),
        version: spec_opt_view(s.version),
        data_found: s.data_found,
        data: spec_data_view(s.data),
        kid: match s.kid {
            Some(k) => Some(spec_kid_view(k)),
            None => None,
        },
        protect_info: spec_opt_protect_info_view(s.protect_info),
    }
}

/// What one event does to the reader.
pub enum StepView {
    /// Reading goes on from this state.
    Continue(WrmStateView),
    /// The document ended where it may: the header is read.
    Finish(WrmStateView),
    /// The document ended inside an element.
    Fail,
}

/// An empty PROTECTINFO.
pub open spec fn spec_empty_protect_info() -> ProtectInfoView {
    ProtectInfoView { keylen: None, algid: None, kids: Seq::empty() }
}

/// What a text event does inside one of DATA's text children.
pub open spec fn spec_data_text_step(s: WrmStateView, e: EventView, end_name: Seq<char>) -> StepView {
    match e {
        EventView::End(name) => if name == end_name {
            StepView::Continue(WrmStateView { element: spec_close(s.element), ..s })
        } else {
            StepView::Continue(s)
        },
        EventView::Eof => StepView::Fail,
        _ => match spec_event_text(e) {
            Some(t) => StepView::Continue(WrmStateView {
                data: match s.element {
                    Element::Checksum => WrmDataView { checksum: spec_append(s.data.checksum, t), ..s.data },
                    Element::LaUrl => WrmDataView { la_url: spec_append(s.data.la_url, t), ..s.data },
                    Element::LuiUrl => WrmDataView { lui_url: spec_append(s.data.lui_url, t), ..s.data },
                    Element::DsId => WrmDataView { ds_id: spec_append(s.data.ds_id, t), ..s.data },
                    _ => WrmDataView { decryptor_setup: spec_append(s.data.decryptor_setup, t), ..s.data },
                },
                ..s
            }),
            None => StepView::Continue(s),
        },
    }
}

/// The end tag that closes a text child of DATA.
pub open spec fn spec_text_element_name(e: Element) -> Seq<char> {
    match e {
        Element::Checksum => "CHECKSUM"@,
        Element::LaUrl => "LA_URL"@,
        Element::LuiUrl => "LUI_URL"@,
        Element::DsId => "DS_ID"@,
        _ => "DECRYPTORSETUP"@,
    }
}

/// What one event does to the reader, by the element it stands in.
pub open spec fn spec_step(s: WrmStateView, e: EventView) -> StepView {
    match s.element {
        Element::Header => match e {
            EventView::Start(name, attrs) => if name == "WRMHEADER"@ {
                StepView::Continue(WrmStateView {
                    xmlns: spec_last_attr(attrs, attrs.len() as int, "xmlns"@, s.xmlns),
                    version: spec_last_attr(attrs, attrs.len() as int, "version"@, s.version),
                    ..s
                })
            } else if name == "DATA"@ {
                StepView::Continue(WrmStateView { data_found: true, element: Element::Data, ..s })
            } else {
                StepView::Continue(s)
            },
            EventView::Eof => StepView::Finish(s),
            _ => StepView::Continue(s),
        },
        Element::Data => match e {
            EventView::Start(name, attrs) => if name == "KID"@ {
                StepView::Continue(WrmStateView {
                    kid: Some(spec_key_id(attrs, attrs.len() as int)),
                    element: Element::Kid(KidParent::WrmData),
                    ..s
                })
            } else if name == "PROTECTINFO"@ {
                StepView::Continue(WrmStateView {
                    protect_info: Some(spec_empty_protect_info()),
                    element: Element::ProtectInfo,
                    ..s
                })
            } else if name == "CHECKSUM"@ {
                StepView::Continue(WrmStateView { element: Element::Checksum, ..s })
            } else if name == "LA_URL"@ {
                StepView::Continue(WrmStateView { element: Element::LaUrl, ..s })
            } else if name == "LUI_URL"@ {
                StepView::Continue(WrmStateView { element: Element::LuiUrl, ..s })
            } else if name == "DS_ID"@ {
                StepView::Continue(WrmStateView { element: Element::DsId, ..s })
            } else if name == "DECRYPTORSETUP"@ {
                StepView::Continue(WrmStateView { element: Element::DecryptorSetup, ..s })
            } else if name == "CUSTOMATTRIBUTES"@ {
                StepView::Continue(WrmStateView { element: Element::CustomAttributes, ..s })
            } else {
                StepView::Continue(s)
            },
            EventView::End(name) => if name == "DATA"@ {
                StepView::Continue(WrmStateView { element: spec_close(s.element), ..s })
            } else {
                StepView::Continue(s)
            },
            EventView::Eof => StepView::Fail,
            _ => StepView::Continue(s),
        },
        Element::Kid(parent) => match e {
            EventView::End(name) => if name == "KID"@ {
                let closed = WrmStateView { kid: None, element: spec_close(s.element), ..s };
                match s.kid {
                    None => StepView::Continue(closed),
                    Some(k) => match parent {
                        KidParent::WrmData => StepView::Continue(WrmStateView {
                            data: WrmDataView { kids: s.data.kids.push(k), ..s.data },
                            ..closed
                        }),
                        _ => match s.protect_info {
                            Some(pi) => StepView::Continue(WrmStateView {
                                protect_info: Some(ProtectInfoView { kids: pi.kids.push(k), ..pi }),
                                ..closed
                            }),
                            None => StepView::Continue(closed),
                        },
                    },
                }
            } else {
                StepView::Continue(s)
            },
            EventView::Eof => StepView::Fail,
            _ => match (spec_event_text(e), s.kid) {
                (Some(t), Some(k)) => StepView::Continue(WrmStateView {
                    kid: Some(KidView { value: spec_append(k.value, t), ..k }),
                    ..s
                }),
                _ => StepView::Continue(s),
            },
        },
        Element::ProtectInfo => match e {
            EventView::Start(name, attrs) => if name == "KIDS"@ {
                StepView::Continue(WrmStateView { element: Element::Kids, ..s })
            } else if name == "KID"@ {
                StepView::Continue(WrmStateView {
                    kid: Some(spec_key_id(attrs, attrs.len() as int)),
                    element: Element::Kid(KidParent::ProtectInfo),
                    ..s
                })
            } else if name == "ALGID"@ {
                StepView::Continue(WrmStateView { element: Element::AlgId, ..s })
            } else if name == "KEYLEN"@ {
                StepView::Continue(WrmStateView { element: Element::KeyLen, ..s })
            } else {
                StepView::Continue(s)
            },
            EventView::End(name) => if name == "PROTECTINFO"@ {
                StepView::Continue(WrmStateView {
                    data: WrmDataView { protect_info: s.protect_info, ..s.data },
                    protect_info: None,
                    element: spec_close(s.element),
                    ..s
                })
            } else {
                StepView::Continue(s)
            },
            EventView::Eof => StepView::Fail,
            _ => StepView::Continue(s),
        },
        Element::KeyLen => match e {
            EventView::Text(t) => match s.protect_info {
                Some(pi) => StepView::Continue(WrmStateView {
                    protect_info: Some(ProtectInfoView { keylen: spec_u32_text(t), ..pi }),
                    ..s
                }),
                None => StepView::Continue(s),
            },
            EventView::End(name) => if name == "KEYLEN"@ {
                StepView::Continue(WrmStateView { element: spec_close(s.element), ..s })
            } else {
                StepView::Continue(s)
            },
            EventView::Eof => StepView::Fail,
            _ => StepView::Continue(s),
        },
        Element::AlgId => match s.protect_info {
            None => StepView::Continue(s),
            Some(pi) => match e {
                EventView::End(name) => if name == "ALGID"@ {
                    StepView::Continue(WrmStateView { element: spec_close(s.element), ..s })
                } else {
                    StepView::Continue(s)
                },
                EventView::Eof => StepView::Fail,
                _ => match spec_event_text(e) {
                    Some(t) => StepView::Continue(WrmStateView {
                        protect_info: Some(ProtectInfoView { algid: spec_append(pi.algid, t), ..pi }),
                        ..s
                    }),
                    None => StepView::Continue(s),
                },
            },
        },
        Element::Kids => match e {
            EventView::Start(name, attrs) => if name == "KID"@ {
                StepView::Continue(WrmStateView {
                    kid: Some(spec_key_id(attrs, attrs.len() as int)),
                    element: Element::Kid(KidParent::Kids),
                    ..s
                })
            } else {
                StepView::Continue(s)
            },
            EventView::End(name) => if name == "KIDS"@ {
                StepView::Continue(WrmStateView { element: spec_close(s.element), ..s })
            } else {
                StepView::Continue(s)
            },
            EventView::Eof => StepView::Fail,
            _ => StepView::Continue(s),
        },
        Element::CustomAttributes => match e {
            EventView::End(name) => if name == "CUSTOMATTRIBUTES"@ {
                StepView::Continue(WrmStateView { element: spec_close(s.element), ..s })
            } else {
                StepView::Continue(s)
            },
            EventView::Eof => StepView::Fail,
            _ => StepView::Continue(s),
        },
        _ => spec_data_text_step(s, e, spec_text_element_name(s.element)),
    }
}

/// Whether the custom-attributes text takes this event: the CUSTOMATTRIBUTES start tag in
/// DATA, and every event but the end of the document inside CUSTOMATTRIBUTES.
pub open spec fn spec_writes_event(element: Element, e: EventView) -> bool {
    match element {
        Element::Data => e matches EventView::Start(name, _) && name == "CUSTOMATTRIBUTES"@,
        Element::CustomAttributes => !(e is Eof),
        _ => false,
    }
}

/// What reading one event did.
#[derive(Debug, PartialEq, Eq, Structural, Clone, Copy)]
pub enum StepOutcome {
    Continue,
    Finish,
    Fail,
}

fn append_text(field: &mut Option<String>, t: &str)
    ensures
        spec_opt_view(*final(field)) == spec_append(spec_opt_view(*old(field)), t@),
{
    match field.take() {
        Some(mut v) => {
            push_str(&mut v, t);
            *field = Some(v);
        },
        None => {
            *field = Some(String::from_str(t));
        },
    }
}

/// The KID a start tag's attributes describe.
fn key_id(attrs: &Vec<(String, String)>) -> (r: PlayReadyKid)
    ensures
        spec_kid_view(r) == spec_key_id(attrs@.map_values(|a: (String, String)| (a.0@, a.1@)), attrs@.len() as int),
{
    let ghost v = attrs@.map_values(|a: (String, String)| (a.0@, a.1@));
    let mut kid = PlayReadyKid { value: None, algid: None, checksum: None };
    let mut i: usize = 0;
    while i < attrs.len()
        invariant
            i <= attrs@.len(),
            v == attrs@.map_values(|a: (String, String)| (a.0@, a.1@)),
            spec_kid_view(kid) == spec_key_id(v, i as int),
        decreases attrs.len() - i,
    {
        let key = attrs[i].0.as_str();
        let value = &attrs[i].1;
        if str_equals_text(key, "VALUE") {
            kid.value = Some(value.clone());
        } else if str_equals_text(key, "ALGID") {
            kid.algid = Some(value.clone());
        } else if str_equals_text(key, "CHECKSUM") {
            kid.checksum = Some(value.clone());
        }
        i = i + 1;
    }
    kid
}

/// The value of the last attribute named `key`, or `current`.
fn last_attr(attrs: &Vec<(String, String)>, key: &str, current: Option<String>) -> (r: Option<String>)
    ensures
        spec_opt_view(r) == spec_last_attr(
            attrs@.map_values(|a: (String, String)| (a.0@, a.1@)),
            attrs@.len() as int,
            key@,
            spec_opt_view(current),
        ),
{
    let ghost v = attrs@.map_values(|a: (String, String)| (a.0@, a.1@));
    let mut j = attrs.len();
    while j > 0
        invariant
            j <= attrs@.len(),
            v == attrs@.map_values(|a: (String, String)| (a.0@, a.1@)),
            spec_last_attr(v, j as int, key@, spec_opt_view(current)) == spec_last_attr(v, attrs@.len() as int, key@, spec_opt_view(current)),
        decreases j,
    {
        if str_equals_text(attrs[j - 1].0.as_str(), key) {
            return Some(attrs[j - 1].1.clone());
        }
        j = j - 1;
    }
    current
}

/// The text an event contributes to a text element.
fn event_text_of(e: &XmlEvent) -> (r: Option<String>)
    ensures
        spec_opt_view(r) == spec_event_text(spec_event_view(*e)),
{
    match e {
        XmlEvent::Text { content } => Some(content.clone()),
        XmlEvent::CData { content } => Some(content.clone()),
        XmlEvent::Reference { name } => {
            let mut t = String::new();
            push_char(&mut t, '&');
            push_str(&mut t, name.as_str());
            push_char(&mut t, ';');
            Some(t)
        },
        _ => None,
    }
}

/// Whether `e` is an end tag named `name`.
fn is_end(e: &XmlEvent, name: &str) -> (r: bool)
    ensures
        r == (spec_event_view(*e) matches EventView::End(n) && n == name@),
{
    match e {
        XmlEvent::End { name: n } => str_equals_text(n.as_str(), name),
        _ => false,
    }
}

/// Whether `e` is a start tag named `name`.
fn is_start(e: &XmlEvent, name: &str) -> (r: bool)
    ensures
        r == (spec_event_view(*e) matches EventView::Start(n, _) && n == name@),
{
    match e {
        XmlEvent::Start { name: n, .. } => str_equals_text(n.as_str(), name),
        _ => false,
    }
}

/// The text field of DATA that a text element fills.
fn data_text_field(data: &mut WRMData, element: Element, t: &str)
    ensures
        spec_data_view(*final(data)) == (match element {
            Element::Checksum => WrmDataView { checksum: spec_append(spec_data_view(*old(data)).checksum, t@), ..spec_data_view(*old(data)) },
            Element::LaUrl => WrmDataView { la_url: spec_append(spec_data_view(*old(data)).la_url, t@), ..spec_data_view(*old(data)) },
            Element::LuiUrl => WrmDataView { lui_url: spec_append(spec_data_view(*old(data)).lui_url, t@), ..spec_data_view(*old(data)) },
            Element::DsId => WrmDataView { ds_id: spec_append(spec_data_view(*old(data)).ds_id, t@), ..spec_data_view(*old(data)) },
            _ => WrmDataView { decryptor_setup: spec_append(spec_data_view(*old(data)).decryptor_setup, t@), ..spec_data_view(*old(data)) },
        }),
{
    match element {
        Element::Checksum => append_text(&mut data.checksum, t),
        Element::LaUrl => append_text(&mut data.la_url, t),
        Element::LuiUrl => append_text(&mut data.lui_url, t),
        Element::DsId => append_text(&mut data.ds_id, t),
        _ => append_text(&mut data.decryptor_setup, t),
    }
}

/// The end tag that closes a text child of DATA.
fn text_element_name(e: Element) -> (r: &'static str)
    ensures
        r@ == spec_text_element_name(e),
{
    match e {
        Element::Checksum => "CHECKSUM",
        Element::LaUrl => "LA_URL",
        Element::LuiUrl => "LUI_URL",
        Element::DsId => "DS_ID",
        _ => "DECRYPTORSETUP",
    }
}

proof fn lemma_kids_push(ks: Seq<PlayReadyKid>, k: PlayReadyKid)
    ensures
        spec_kids_view(ks.push(k)) == spec_kids_view(ks).push(spec_kid_view(k)),
{
    assert(spec_kids_view(ks.push(k)) =~= spec_kids_view(ks).push(spec_kid_view(k)));
}

/// Reads one event: what it does to the reader, by the element the reader stands in.
pub fn step(state: &mut WrmState, ev: &XmlEvent) -> (r: StepOutcome)
    ensures
        match spec_step(spec_state_view(*old(state)), spec_event_view(*ev)) {
            StepView::Continue(v) => r == StepOutcome::Continue && spec_state_view(*final(state)) == v,
            StepView::Finish(v) => r == StepOutcome::Finish && spec_state_view(*final(state)) == v,
            StepView::Fail => r == StepOutcome::Fail,
        },
{
    match state.element {
        Element::Header => match ev {
            XmlEvent::Start { name, attributes } => {
                if str_equals_text(name.as_str(), "WRMHEADER") {
                    let x = state.xmlns.take();
                    state.xmlns = last_attr(attributes, "xmlns", x);
                    let v = state.version.take();
                    state.version = last_attr(attributes, "version", v);
                } else if str_equals_text(name.as_str(), "DATA") {
                    state.data_found = true;
                    state.element = Element::Data;
                }
                StepOutcome::Continue
            },
            XmlEvent::Eof => StepOutcome::Finish,
            _ => StepOutcome::Continue,
        },
        Element::Data => match ev {
            XmlEvent::Start { name, attributes } => {
                let n = name.as_str();
                if str_equals_text(n, "KID") {
                    state.kid = Some(key_id(attributes));
                    state.element = Element::Kid(KidParent::WrmData);
                } else if str_equals_text(n, "PROTECTINFO") {
                    state.protect_info = Some(ProtectInfo { keylen: None, algid: None, kids: Vec::new() });
                    state.element = Element::ProtectInfo;
                    proof {
                        assert(spec_kids_view(Seq::<PlayReadyKid>::empty()) =~= Seq::<KidView>::empty());
                    }
                } else if str_equals_text(n, "CHECKSUM") {
                    state.element = Element::Checksum;
                } else if str_equals_text(n, "LA_URL") {
                    state.element = Element::LaUrl;
                } else if str_equals_text(n, "LUI_URL") {
                    state.element = Element::LuiUrl;
                } else if str_equals_text(n, "DS_ID") {
                    state.element = Element::DsId;
                } else if str_equals_text(n, "DECRYPTORSETUP") {
                    state.element = Element::DecryptorSetup;
                } else if str_equals_text(n, "CUSTOMATTRIBUTES") {
                    state.element = Element::CustomAttributes;
                }
                StepOutcome::Continue
            },
            XmlEvent::End { name } => {
                if str_equals_text(name.as_str(), "DATA") {
                    state.element.close();
                }
                StepOutcome::Continue
            },
            XmlEvent::Eof => StepOutcome::Fail,
            _ => StepOutcome::Continue,
        },
        Element::Kid(parent) => match ev {
            XmlEvent::End { name } => {
                if str_equals_text(name.as_str(), "KID") {
                    match state.kid.take() {
                        Some(k) => match parent {
                            KidParent::WrmData => {
                                proof {
                                    lemma_kids_push(state.data.kids@, k);
                                }
                                state.data.kids.push(k);
                            },
                            _ => match state.protect_info.take() {
                                Some(mut pi) => {
                                    proof {
                                        lemma_kids_push(pi.kids@, k);
                                    }
                                    pi.kids.push(k);
                                    state.protect_info = Some(pi);
                                },
                                None => {},
                            },
                        },
                        None => {},
                    }
                    state.element.close();
                }
                StepOutcome::Continue
            },
            XmlEvent::Eof => StepOutcome::Fail,
            _ => {
                match event_text_of(ev) {
                    Some(t) => match state.kid.take() {
                        Some(mut k) => {
                            append_text(&mut k.value, t.as_str());
                            state.kid = Some(k);
                        },
                        None => {},
                    },
                    None => {},
                }
                StepOutcome::Continue
            },
        },
        Element::ProtectInfo => match ev {
            XmlEvent::Start { name, attributes } => {
                let n = name.as_str();
                if str_equals_text(n, "KIDS") {
                    state.element = Element::Kids;
                } else if str_equals_text(n, "KID") {
                    state.kid = Some(key_id(attributes));
                    state.element = Element::Kid(KidParent::ProtectInfo);
                } else if str_equals_text(n, "ALGID") {
                    state.element = Element::AlgId;
                } else if str_equals_text(n, "KEYLEN") {
                    state.element = Element::KeyLen;
                }
                StepOutcome::Continue
            },
            XmlEvent::End { name } => {
                if str_equals_text(name.as_str(), "PROTECTINFO") {
                    state.data.protect_info = state.protect_info.take();
                    state.element.close();
                }
                StepOutcome::Continue
            },
            XmlEvent::Eof => StepOutcome::Fail,
            _ => StepOutcome::Continue,
        },
        Element::KeyLen => match ev {
            XmlEvent::Text { content } => {
                match state.protect_info.take() {
                    Some(mut pi) => {
                        pi.keylen = match parse_u32(content.as_str()) {
                            Ok(v) => Some(v),
                            Err(_) => None,
                        };
                        state.protect_info = Some(pi);
                    },
                    None => {},
                }
                StepOutcome::Continue
            },
            XmlEvent::End { name } => {
                if str_equals_text(name.as_str(), "KEYLEN") {
                    state.element.close();
                }
                StepOutcome::Continue
            },
            XmlEvent::Eof => StepOutcome::Fail,
            _ => StepOutcome::Continue,
        },
        Element::AlgId => {
            if state.protect_info.is_none() {
                return StepOutcome::Continue;
            }
            match ev {
                XmlEvent::End { name } => {
                    if str_equals_text(name.as_str(), "ALGID") {
                        state.element.close();
                    }
                    StepOutcome::Continue
                },
                XmlEvent::Eof => StepOutcome::Fail,
                _ => {
                    match event_text_of(ev) {
                        Some(t) => match state.protect_info.take() {
                            Some(mut pi) => {
                                append_text(&mut pi.algid, t.as_str());
                                state.protect_info = Some(pi);
                            },
                            None => {},
                        },
                        None => {},
                    }
                    StepOutcome::Continue
                },
            }
        },
        Element::Kids => match ev {
            XmlEvent::Start { name, attributes } => {
                if str_equals_text(name.as_str(), "KID") {
                    state.kid = Some(key_id(attributes));
                    state.element = Element::Kid(KidParent::Kids);
                }
                StepOutcome::Continue
            },
            XmlEvent::End { name } => {
                if str_equals_text(name.as_str(), "KIDS") {
                    state.element.close();
                }
                StepOutcome::Continue
            },
            XmlEvent::Eof => StepOutcome::Fail,
            _ => StepOutcome::Continue,
        },
        Element::CustomAttributes => match ev {
            XmlEvent::End { name } => {
                if str_equals_text(name.as_str(), "CUSTOMATTRIBUTES") {
                    state.element.close();
                }
                StepOutcome::Continue
            },
            XmlEvent::Eof => StepOutcome::Fail,
            _ => StepOutcome::Continue,
        },
        element => match ev {
            XmlEvent::End { name } => {
                if str_equals_text(name.as_str(), text_element_name(element)) {
                    state.element.close();
                }
                StepOutcome::Continue
            },
            XmlEvent::Eof => StepOutcome::Fail,
            _ => {
                match event_text_of(ev) {
                    Some(t) => data_text_field(&mut state.data, element, t.as_str()),
                    None => {},
                }
                StepOutcome::Continue
            },
        },
    }
}

/// Where reading a run of events ends.
pub enum RunEnd {
    /// The document ended where it may, with this state and custom-attributes text.
    Finished(WrmStateView, Seq<u8>),
    /// The document ended inside an element.
    Failed,
    /// The events ran out before the end of the document.
    Exhausted,
}

/// Reading events from `i` on, from state `s`, with `custom` written so far. Each event
/// is a view and the XML text quick_xml writes for it.
pub open spec fn spec_run(evs: Seq<(EventView, Seq<u8>)>, i: int, s: WrmStateView, custom: Seq<u8>) -> RunEnd
    decreases evs.len() - i,
{
    if i < 0 || i >= evs.len() {
        RunEnd::Exhausted
    } else {
        let (e, raw) = evs[i];
        let next_custom = if spec_writes_event(s.element, e) { custom + raw } else { custom };
        match spec_step(s, e) {
            StepView::Continue(v) => spec_run(evs, i + 1, v, next_custom),
            StepView::Finish(v) => RunEnd::Finished(v, next_custom),
            StepView::Fail => RunEnd::Failed,
        }
    }
}

/// The reader before any event.
pub open spec fn spec_initial_state() -> WrmStateView {
    WrmStateView {
        element: Element::Header,
        xmlns: None,
        version: None,
        data_found: false,
        data: WrmDataView {
            kids: Seq::empty(),
            protect_info: None,
            checksum: None,
            la_url: None,
            lui_url: None,
            ds_id: None,
            decryptor_setup: None,
        },
        kid: None,
        protect_info: None,
    }
}

/// A WRM header as plain values.
pub struct WrmHeaderView {
    pub xmlns: Seq<char>,
    pub version: Seq<char>,
    pub data: WrmDataView,
    pub custom_attributes: Option<Seq<char>>,
}

/// Why a WRM header's events do not make a header.
#[derive(PartialEq, Eq, Structural)]
pub enum WrmError {
    NoWrmData,
    NoVersion,
    UnexpectedEndOfXml,
}

/// The namespace a WRM header without an `xmlns` attribute is read in.
pub const DEFAULT_XMLNS: &'static str = "http://schemas.microsoft.com/DRM/2007/03/PlayReadyHeader";

/// The header a run of events gives: where the document ended where it may, a DATA
/// element and a version are required, the namespace defaults, and the custom attributes
/// are the UTF-8 text written for them.
pub open spec fn spec_read_wrm(evs: Seq<(EventView, Seq<u8>)>) -> Result<WrmHeaderView, WrmError> {
    match spec_run(evs, 0, spec_initial_state(), Seq::empty()) {
        RunEnd::Finished(v, custom) => if !v.data_found {
            Err(WrmError::NoWrmData)
        } else {
            match v.version {
                None => Err(WrmError::NoVersion),
                Some(version) => Ok(WrmHeaderView {
                    xmlns: match v.xmlns {
                        Some(x) => x,
                        None => DEFAULT_XMLNS@,
                    },
                    version,
                    data: v.data,
                    custom_attributes: if valid_utf8(custom) { Some(decode_utf8(custom)) } else { None },
                }),
            }
        },
        _ => Err(WrmError::UnexpectedEndOfXml),
    }
}

/// The plain values of a run of events and their XML text.
pub open spec fn spec_events_view(evs: Seq<(XmlEvent, Vec<u8>)>) -> Seq<(EventView, Seq<u8>)> {
    evs.map_values(|p: (XmlEvent, Vec<u8>)| (spec_event_view(p.0), p.1@))
}

/// A WRM header as plain values.
pub open spec fn spec_header_view(h: WRMHeader) -> WrmHeaderView {
    WrmHeaderView {
        xmlns: h.xmlns@,
        version: h.version@,
        data: spec_data_view(h.data),
        custom_attributes: spec_opt_view(h.data.custom_attributes),
    }
}

/// Whether a parse error is the WRM error `e`.
pub open spec fn spec_is_wrm_error(r: ParseError, e: WrmError) -> bool {
    match e {
        WrmError::NoWrmData => r is NoWrmData,
        WrmError::NoVersion => r is NoVersion,
        WrmError::UnexpectedEndOfXml => r is UnexpectedEndOfXml,
    }
}

/// Reads a WRM header from its XML events, each with the XML text that quick_xml writes
/// for it (which is what the custom attributes are made of).
pub fn read_wrm_events(events: &[(XmlEvent, Vec<u8>)]) -> (r: Result<WRMHeader, ParseError>)
    ensures
        match spec_read_wrm(spec_events_view(events@)) {
            Ok(h) => r matches Ok(x) && spec_header_view(x) == h,
            Err(e) => r matches Err(x) && spec_is_wrm_error(x, e),
        },
{
    let ghost evs = spec_events_view(events@);
    let mut state = WrmState {
        element: Element::Header,
        xmlns: None,
        version: None,
        data_found: false,
        data: WRMData {
            kids: Vec::new(),
            protect_info: None,
            checksum: None,
            la_url: None,
            lui_url: None,
            ds_id: None,
            custom_attributes: None,
            decryptor_setup: None,
        },
        kid: None,
        protect_info: None,
    };
    proof {
        assert(spec_kids_view(Seq::<PlayReadyKid>::empty()) =~= Seq::<KidView>::empty());
        assert(spec_state_view(state) == spec_initial_state());
    }
    let mut custom: Vec<u8> = Vec::new();
    let mut i: usize = 0;
    while i < events.len()
        invariant
            i <= events@.len(),
            evs == spec_events_view(events@),
            spec_run(evs, i as int, spec_state_view(state), custom@) == spec_run(evs, 0, spec_initial_state(), Seq::empty()),
        decreases events.len() - i,
    {
        let (ev, raw) = (&events[i].0, &events[i].1);
        proof {
            assert(evs[i as int] == (spec_event_view(*ev), raw@));
        }
        let ghost before = spec_state_view(state);
        let ghost before_custom = custom@;
        let writes = match state.element {
            Element::Data => match ev {
                XmlEvent::Start { name, .. } => str_equals_text(name.as_str(), "CUSTOMATTRIBUTES"),
                _ => false,
            },
            Element::CustomAttributes => match ev {
                XmlEvent::Eof => false,
                _ => true,
            },
            _ => false,
        };
        if writes {
            let mut k: usize = 0;
            while k < raw.len()
                invariant
                    k <= raw@.len(),
                    custom@ == before_custom + raw@.subrange(0, k as int),
                decreases raw.len() - k,
            {
                custom.push(raw[k]);
                k = k + 1;
            }
            assert(raw@.subrange(0, raw@.len() as int) =~= raw@);
        }
        assert(custom@ == if spec_writes_event(before.element, spec_event_view(*ev)) { before_custom + raw@ } else { before_custom });
        match step(&mut state, ev) {
            StepOutcome::Continue => {},
            StepOutcome::Finish => {
                return finish_header(state, custom);
            },
            StepOutcome::Fail => {
                return Err(ParseError::UnexpectedEndOfXml);
            },
        }
        i = i + 1;
    }
    Err(ParseError::UnexpectedEndOfXml)
}

/// The header of a reader that reached the end of the document where it may.
fn finish_header(state: WrmState, custom: Vec<u8>) -> (r: Result<WRMHeader, ParseError>)
    ensures
        !state.data_found ==> (r matches Err(e) && e is NoWrmData),
        state.data_found && state.version is None ==> (r matches Err(e) && e is NoVersion),
        state.data_found && state.version is Some ==> (r matches Ok(h) && spec_header_view(h) == (WrmHeaderView {
            xmlns: match spec_opt_view(state.xmlns) {
                Some(x) => x,
                None => DEFAULT_XMLNS@,
            },
            version: state.version->0@,
            data: spec_data_view(state.data),
            custom_attributes: if valid_utf8(custom@) { Some(decode_utf8(custom@)) } else { None },
        })),
{
    if !state.data_found {
        return Err(ParseError::NoWrmData);
    }
    let xmlns = match state.xmlns {
        Some(x) => x,
        None => String::from_str(DEFAULT_XMLNS),
    };
    let version = match state.version {
        Some(v) => v,
        None => {
            return Err(ParseError::NoVersion);
        },
    };
    let mut data = state.data;
    data.custom_attributes = utf8_string(custom);
    Ok(WRMHeader { xmlns, version, data })
}


/// A KID start tag's decoded key id takes each of its fields from the attribute of that
/// name: the checksum is the value of its (last) `CHECKSUM` attribute, the algorithm id of
/// `ALGID` and the value of `VALUE`, and a field whose attribute is absent is `None`.
pub proof fn lemma_key_id_attributes(attrs: Seq<(Seq<char>, Seq<char>)>, n: int)
    requires
        0 <= n <= attrs.len(),
    ensures
        spec_key_id(attrs, n).checksum == spec_last_attr(attrs, n, "CHECKSUM"@, None),
        spec_key_id(attrs, n).algid == spec_last_attr(attrs, n, "ALGID"@, None),
        spec_key_id(attrs, n).value == spec_last_attr(attrs, n, "VALUE"@, None),
    decreases n,
{
    reveal_strlit("CHECKSUM");
    reveal_strlit("ALGID");
    reveal_strlit("VALUE");
    assert("VALUE"@ != "CHECKSUM"@ && "ALGID"@ != "CHECKSUM"@) by {
        assert("VALUE"@.len() != "CHECKSUM"@.len());
        assert("ALGID"@.len() != "CHECKSUM"@.len());
    }
    assert("VALUE"@ != "ALGID"@) by {
        assert("VALUE"@[0] != "ALGID"@[0]);
    }
    if n > 0 {
        lemma_key_id_attributes(attrs, n - 1);
    }
}

} // verus!
