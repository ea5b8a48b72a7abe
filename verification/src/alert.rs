//! Alerts: reading them from a reply, and telling the heartbeat alert from the
//! others.

use vstd::prelude::*;
use crate::json::{Json, JsonView, parse_json};
#[allow(unused_imports)]
use crate::json::{items_view, json_value, lemma_json_view, members_view};
use crate::string_map::StringMap;
use crate::text::{is_blank, same_text};
#[allow(unused_imports)]
use crate::text::blank;

verus! {

/// Where an alert stands: `active`, `suppressed` and so on.
#[derive(Debug)]
pub struct AlertStatus {
    pub state: String,
}

/// An alert of one Grafana instance.
#[derive(Debug)]
pub struct Alert {
    pub fingerprint: String,
    pub status: AlertStatus,
    pub labels: StringMap<String>,
    pub annotations: StringMap<String>,
    pub starts_at: String,
    pub generator_url: Option<String>,
    /// The base URL of the instance that the alert came from.
    pub source_url: Option<String>,
}

/// What an [`Alert`] stands for.
#[verifier::ext_equal]
pub struct AlertView {
    pub fingerprint: Seq<char>,
    pub state: Seq<char>,
    pub labels: Map<Seq<char>, Seq<char>>,
    pub annotations: Map<Seq<char>, Seq<char>>,
    pub starts_at: Seq<char>,
    pub generator_url: Option<Seq<char>>,
    pub source_url: Option<Seq<char>>,
}

/// The text in an optional string.
pub open spec fn optional_text(s: Option<String>) -> Option<Seq<char>> {
    match s {
        Some(s) => Some(s@),
        None => None,
    }
}

impl View for Alert {
    type V = AlertView;

    open spec fn view(&self) -> AlertView {
        AlertView {
            fingerprint: self.fingerprint@,
            state: self.status.state@,
            labels: self.labels@,
            annotations: self.annotations@,
            starts_at: self.starts_at@,
            generator_url: optional_text(self.generator_url),
            source_url: optional_text(self.source_url),
        }
    }
}

/// What a list of alerts stands for.
pub open spec fn alert_views(s: Seq<Alert>) -> Seq<AlertView> {
    Seq::new(s.len(), |i: int| s[i]@)
}

impl Default for AlertStatus {
    fn default() -> (r: Self)
        ensures
            r.state@ == Seq::<char>::empty(),
    {
        AlertStatus { state: String::new() }
    }
}

impl Clone for AlertStatus {
    fn clone(&self) -> (r: Self)
        ensures
            r.state@ == self.state@,
    {
        AlertStatus { state: self.state.clone() }
    }
}

/// A copy of an optional string.
pub fn copy_optional(s: &Option<String>) -> (r: Option<String>)
    ensures
        optional_text(r) == optional_text(*s),
{
    match s {
        Some(s) => Some(s.clone()),
        None => None,
    }
}

impl Clone for Alert {
    fn clone(&self) -> (r: Self)
        ensures
            r@ == self@,
    {
        Alert {
            fingerprint: self.fingerprint.clone(),
            status: self.status.clone(),
            labels: self.labels.clone(),
            annotations: self.annotations.clone(),
            starts_at: self.starts_at.clone(),
            generator_url: copy_optional(&self.generator_url),
            source_url: copy_optional(&self.source_url),
        }
    }
}

/// The values of the members with the given name, in order.
pub open spec fn member_values(members: Seq<(Seq<char>, JsonView)>, name: Seq<char>) -> Seq<JsonView>
    decreases members.len(),
{
    if members.len() == 0 {
        Seq::empty()
    } else {
        let front = member_values(members.drop_last(), name);
        if members.last().0 == name {
            front.push(members.last().1)
        } else {
            front
        }
    }
}

/// The names of an alert's fields in JSON, in the order in which an array
/// gives them.
pub open spec fn alert_field_names() -> Seq<Seq<char>> {
    seq![
        "fingerprint"@,
        "status"@,
        "labels"@,
        "annotations"@,
        "startsAt"@,
        "generatorURL"@,
        "sourceURL"@,
    ]
}

/// The field with the given name, where the members name it.
pub open spec fn member_slot(
    members: Seq<(Seq<char>, JsonView)>,
    name: Seq<char>,
) -> Option<JsonView> {
    let found = member_values(members, name);
    if found.len() == 0 {
        None
    } else {
        Some(found[0])
    }
}

/// The fields of an alert, each present or absent: an object gives them by
/// name, each at most once, and an array gives them by position, all but the
/// last being needed. Nothing else is an alert.
pub open spec fn alert_slots(json: JsonView) -> Option<Seq<Option<JsonView>>> {
    match json {
        JsonView::Object(members) => if forall|i: int|
            0 <= i < 7 ==> member_values(
                members,
                #[trigger] alert_field_names()[i],
            ).len() <= 1 {
            Some(Seq::new(7, |i: int| member_slot(members, alert_field_names()[i])))
        } else {
            None
        },
        JsonView::Array(items) => if 6 <= items.len() <= 7 {
            Some(
                Seq::new(
                    7,
                    |i: int|
                        if i < items.len() {
                            Some(items[i])
                        } else {
                            None
                        },
                ),
            )
        } else {
            None
        },
        _ => None,
    }
}

/// A field that must be present and a string.
pub open spec fn read_text(slot: Option<JsonView>) -> Option<Seq<char>> {
    match slot {
        Some(JsonView::Text(t)) => Some(t),
        _ => None,
    }
}

/// A field that may be absent or null, and is a string otherwise.
pub open spec fn read_optional_text(slot: Option<JsonView>) -> Option<Option<Seq<char>>> {
    match slot {
        None => Some(None),
        Some(JsonView::Null) => Some(None),
        Some(JsonView::Text(t)) => Some(Some(t)),
        Some(_) => None,
    }
}

/// The members as a map from text to text, the last of several with one name
/// counting. One value that is not a string spoils the whole.
pub open spec fn members_as_texts(members: Seq<(Seq<char>, JsonView)>) -> Option<
    Map<Seq<char>, Seq<char>>,
>
    decreases members.len(),
{
    if members.len() == 0 {
        Some(Map::empty())
    } else {
        match (members_as_texts(members.drop_last()), members.last().1) {
            (Some(front), JsonView::Text(t)) => Some(front.insert(members.last().0, t)),
            _ => None,
        }
    }
}

/// A field that is an object of strings, or absent and then empty.
pub open spec fn read_text_map(slot: Option<JsonView>) -> Option<Map<Seq<char>, Seq<char>>> {
    match slot {
        None => Some(Map::empty()),
        Some(JsonView::Object(members)) => members_as_texts(members),
        Some(_) => None,
    }
}

/// The state that a status field gives: the empty text where the field, or the
/// state in it, is absent.
pub open spec fn read_state(slot: Option<JsonView>) -> Option<Seq<char>> {
    match slot {
        None => Some(Seq::empty()),
        Some(JsonView::Object(members)) => {
            let found = member_values(members, "state"@);
            if found.len() == 0 {
                Some(Seq::empty())
            } else if found.len() == 1 {
                read_text(Some(found[0]))
            } else {
                None
            }
        },
        Some(JsonView::Array(items)) => if items.len() == 0 {
            Some(Seq::empty())
        } else if items.len() == 1 {
            read_text(Some(items[0]))
        } else {
            None
        },
        Some(_) => None,
    }
}

/// The alert that a JSON value describes, or nothing where it describes none.
pub open spec fn read_alert(json: JsonView) -> Option<AlertView> {
    match alert_slots(json) {
        None => None,
        Some(f) => match (
            read_text(f[0]),
            read_state(f[1]),
            read_text_map(f[2]),
            read_text_map(f[3]),
            read_text(f[4]),
            read_optional_text(f[5]),
            read_optional_text(f[6]),
        ) {
            (
                Some(fingerprint),
                Some(state),
                Some(labels),
                Some(annotations),
                Some(starts_at),
                Some(generator_url),
                Some(source_url),
            ) => Some(
                AlertView {
                    fingerprint,
                    state,
                    labels,
                    annotations,
                    starts_at,
                    generator_url,
                    source_url,
                },
            ),
            _ => None,
        },
    }
}

/// The alerts among JSON values, in order, those that describe none left out.
pub open spec fn lenient_alerts(items: Seq<JsonView>) -> Seq<AlertView>
    decreases items.len(),
{
    if items.len() == 0 {
        Seq::empty()
    } else {
        let front = lenient_alerts(items.drop_last());
        match read_alert(items.last()) {
            Some(alert) => front.push(alert),
            None => front,
        }
    }
}

/// Where among JSON values those stand that describe no alert, in order.
pub open spec fn skipped(items: Seq<JsonView>) -> Seq<int>
    decreases items.len(),
{
    if items.len() == 0 {
        Seq::empty()
    } else {
        let front = skipped(items.drop_last());
        match read_alert(items.last()) {
            Some(_) => front,
            None => front.push(items.len() - 1),
        }
    }
}

/// The places that a list of numbers stands for.
pub open spec fn places(s: Seq<usize>) -> Seq<int> {
    Seq::new(s.len(), |i: int| s[i] as int)
}

/// How often a name occurs among members, and with which value.
enum Member<'a> {
    Absent,
    Once(&'a Json),
    Repeated,
}

/// Looks up the members with the given name.
fn find_member<'a>(members: &'a Vec<(String, Json)>, name: &str) -> (r: Member<'a>)
    ensures
        match r {
            Member::Absent => member_values(members_view(members@), name@).len() == 0,
            Member::Once(j) => member_values(members_view(members@), name@) == seq![j@],
            Member::Repeated => member_values(members_view(members@), name@).len() > 1,
        },
{
    let wanted = name.to_owned();
    let mut found: Member<'a> = Member::Absent;
    let ghost all = members_view(members@);
    for i in 0..members.len()
        invariant
            wanted@ == name@,
            all == members_view(members@),
            match found {
                Member::Absent => member_values(all.take(i as int), name@).len() == 0,
                Member::Once(j) => member_values(all.take(i as int), name@) == seq![j@],
                Member::Repeated => member_values(all.take(i as int), name@).len() > 1,
            },
    {
        assert(all.take(i + 1).drop_last() == all.take(i as int));
        if members[i].0 == wanted {
            found = match found {
                Member::Absent => Member::Once(&members[i].1),
                _ => Member::Repeated,
            };
        }
    }
    assert(all.take(members@.len() as int) == all);
    found
}

/// The slot that a reference to a JSON value stands for.
spec fn slot_view(slot: Option<&Json>) -> Option<JsonView> {
    match slot {
        Some(j) => Some(j@),
        None => None,
    }
}

fn text_of(slot: Option<&Json>) -> (r: Option<String>)
    ensures
        optional_text(r) == read_text(slot_view(slot)),
{
    match slot {
        Some(Json::Text(t)) => Some(t.clone()),
        _ => None,
    }
}

fn optional_text_of(slot: Option<&Json>) -> (r: Option<Option<String>>)
    ensures
        match r {
            Some(t) => read_optional_text(slot_view(slot)) == Some(optional_text(t)),
            None => read_optional_text(slot_view(slot)) is None,
        },
{
    match slot {
        None => Some(None),
        Some(Json::Null) => Some(None),
        Some(Json::Text(t)) => Some(Some(t.clone())),
        Some(_) => None,
    }
}

fn text_map_of(slot: Option<&Json>) -> (r: Option<StringMap<String>>)
    ensures
        match r {
            Some(m) => read_text_map(slot_view(slot)) == Some(m@),
            None => read_text_map(slot_view(slot)) is None,
        },
{
    proof {
        if let Some(j) = slot {
            lemma_json_view(*j);
        }
    }
    match slot {
        None => Some(StringMap::new()),
        Some(Json::Object(members)) => {
            let mut texts: StringMap<String> = StringMap::new();
            let ghost all = members_view(members@);
            for i in 0..members.len()
                invariant
                    all == members_view(members@),
                    slot_view(slot) == Some(JsonView::Object(all)),
                    members_as_texts(all.take(i as int)) == Some(texts@),
            {
                assert(all.take(i + 1).drop_last() == all.take(i as int));
                match &members[i].1 {
                    Json::Text(t) => {
                        texts.insert(members[i].0.clone(), t.clone());
                    },
                    _ => {
                        proof {
                            lemma_spoiled(all, i as int);
                        }
                        return None;
                    },
                }
            }
            assert(all.take(members@.len() as int) == all);
            Some(texts)
        },
        Some(_) => None,
    }
}

/// A member whose value is not a string spoils the map.
proof fn lemma_spoiled(members: Seq<(Seq<char>, JsonView)>, i: int)
    requires
        0 <= i < members.len(),
        !(members[i].1 is Text),
    ensures
        members_as_texts(members) is None,
    decreases members.len(),
{
    if i < members.len() - 1 {
        lemma_spoiled(members.drop_last(), i);
    }
}

fn status_of(slot: Option<&Json>) -> (r: Option<AlertStatus>)
    ensures
        match r {
            Some(s) => read_state(slot_view(slot)) == Some(s.state@),
            None => read_state(slot_view(slot)) is None,
        },
{
    proof {
        if let Some(j) = slot {
            lemma_json_view(*j);
        }
    }
    match slot {
        None => Some(AlertStatus { state: String::new() }),
        Some(Json::Object(members)) => match find_member(members, "state") {
            Member::Absent => Some(AlertStatus { state: String::new() }),
            Member::Once(j) => match text_of(Some(j)) {
                Some(state) => Some(AlertStatus { state }),
                None => None,
            },
            Member::Repeated => None,
        },
        Some(Json::Array(items)) => if items.len() == 0 {
            Some(AlertStatus { state: String::new() })
        } else if items.len() == 1 {
            match text_of(Some(&items[0])) {
                Some(state) => Some(AlertStatus { state }),
                None => None,
            }
        } else {
            None
        },
        Some(_) => None,
    }
}

/// The slots of an alert, as references into the JSON value.
fn slots_of<'a>(json: &'a Json) -> (r: Option<Vec<Option<&'a Json>>>)
    ensures
        match r {
            Some(slots) => slots@.len() == 7 && alert_slots(json@) == Some(
                Seq::new(7, |i: int| slot_view(slots@[i])),
            ),
            None => alert_slots(json@) is None,
        },
{
    proof {
        lemma_json_view(*json);
    }
    let mut slots: Vec<Option<&'a Json>> = Vec::new();
    match json {
        Json::Object(members) => {
            let names: [&str; 7] = [
                "fingerprint",
                "status",
                "labels",
                "annotations",
                "startsAt",
                "generatorURL",
                "sourceURL",
            ];
            let ghost all = members_view(members@);
            let ghost wanted = alert_field_names();
            assert forall|i: int| 0 <= i < 7 implies (#[trigger] names@[i])@ == wanted[i] by {}
            for i in 0..7usize
                invariant
                    slots@.len() == i,
                    all == members_view(members@),
                    json@ == JsonView::Object(all),
                    wanted == alert_field_names(),
                    names@.len() == 7,
                    forall|k: int| 0 <= k < 7 ==> (#[trigger] names@[k])@ == wanted[k],
                    forall|k: int| 0 <= k < i ==> member_values(all, #[trigger] wanted[k]).len() <= 1,
                    forall|k: int|
                        0 <= k < i ==> slot_view(#[trigger] slots@[k]) == member_slot(all, wanted[k]),
            {
                match find_member(members, names[i]) {
                    Member::Absent => {
                        slots.push(None);
                    },
                    Member::Once(j) => {
                        slots.push(Some(j));
                    },
                    Member::Repeated => {
                        assert(member_values(all, wanted[i as int]).len() > 1);
                        return None;
                    },
                }
            }
            assert(alert_slots(json@)->0 =~= Seq::new(7, |i: int| slot_view(slots@[i])));
            Some(slots)
        },
        Json::Array(items) => {
            if items.len() < 6 || items.len() > 7 {
                return None;
            }
            for i in 0..7usize
                invariant
                    slots@.len() == i,
                    6 <= items@.len() <= 7,
                    forall|k: int|
                        0 <= k < i ==> slot_view(#[trigger] slots@[k]) == (if k < items@.len() {
                            Some(items@[k]@)
                        } else {
                            None
                        }),
            {
                if i < items.len() {
                    slots.push(Some(&items[i]));
                } else {
                    slots.push(None);
                }
            }
            assert(alert_slots(json@)->0 =~= Seq::new(7, |i: int| slot_view(slots@[i])));
            Some(slots)
        },
        _ => None,
    }
}

/// Reads one alert. A value that is not an alert gives nothing.
pub fn alert_from_json(json: &Json) -> (r: Option<Alert>)
    ensures
        match r {
            Some(alert) => read_alert(json@) == Some(alert@),
            None => read_alert(json@) is None,
        },
{
    let slots = match slots_of(json) {
        Some(slots) => slots,
        None => {
            return None;
        },
    };
    match (
        text_of(slots[0]),
        status_of(slots[1]),
        text_map_of(slots[2]),
        text_map_of(slots[3]),
        text_of(slots[4]),
        optional_text_of(slots[5]),
        optional_text_of(slots[6]),
    ) {
        (
            Some(fingerprint),
            Some(status),
            Some(labels),
            Some(annotations),
            Some(starts_at),
            Some(generator_url),
            Some(source_url),
        ) => Some(
            Alert {
                fingerprint,
                status,
                labels,
                annotations,
                starts_at,
                generator_url,
                source_url,
            },
        ),
        _ => None,
    }
}

/// Why a reply holds no list of alerts.
#[derive(Debug, Clone, Copy, PartialEq, Eq, Structural)]
pub enum AlertsError {
    /// The reply is not JSON.
    InvalidJson,
    /// The reply is JSON, but no array.
    NotAnArray,
}

/// Reads the alerts of an array, leaving out what is not an alert.
pub fn alerts_from_json(json: &Json) -> (r: Result<Vec<Alert>, AlertsError>)
    ensures
        match json@ {
            JsonView::Array(items) => r is Ok && alert_views(r->Ok_0@) == lenient_alerts(items),
            _ => r == Err::<Vec<Alert>, AlertsError>(AlertsError::NotAnArray),
        },
{
    proof {
        lemma_json_view(*json);
    }
    match json {
        Json::Array(items) => {
            let mut alerts: Vec<Alert> = Vec::new();
            let ghost all = items_view(items@);
            for i in 0..items.len()
                invariant
                    all == items_view(items@),
                    alert_views(alerts@) == lenient_alerts(all.take(i as int)),
            {
                assert(all.take(i + 1).drop_last() == all.take(i as int));
                let ghost before = alerts@;
                if let Some(alert) = alert_from_json(&items[i]) {
                    alerts.push(alert);
                    assert(alert_views(alerts@) == alert_views(before).push(alert@));
                }
            }
            assert(all.take(items@.len() as int) == all);
            Ok(alerts)
        },
        _ => Err(AlertsError::NotAnArray),
    }
}

/// Reads the alerts from the body of a reply, one by one, so that one value
/// that is not an alert does not discard the others.
pub fn parse_alerts_lenient(body: &str) -> (r: Result<Vec<Alert>, AlertsError>)
    ensures
        match json_value(body@) {
            Some(JsonView::Array(items)) => r is Ok && alert_views(r->Ok_0@) == lenient_alerts(
                items,
            ),
            Some(_) => r == Err::<Vec<Alert>, AlertsError>(AlertsError::NotAnArray),
            None => r == Err::<Vec<Alert>, AlertsError>(AlertsError::InvalidJson),
        },
{
    match parse_json(body) {
        Ok(json) => alerts_from_json(&json),
        Err(_) => Err(AlertsError::InvalidJson),
    }
}

/// Says which elements of an array [`alerts_from_json`] leaves out, counted
/// from 0. Of anything else nothing is left out.
pub fn skipped_in_json(json: &Json) -> (r: Vec<usize>)
    ensures
        places(r@) == match json@ {
            JsonView::Array(items) => skipped(items),
            _ => Seq::empty(),
        },
{
    proof {
        lemma_json_view(*json);
    }
    let mut found: Vec<usize> = Vec::new();
    assert(places(found@) =~= Seq::empty());
    if let Json::Array(items) = json {
        let ghost all = items_view(items@);
        for i in 0..items.len()
            invariant
                all == items_view(items@),
                places(found@) == skipped(all.take(i as int)),
        {
            assert(all.take(i + 1).drop_last() == all.take(i as int));
            let ghost before = found@;
            if alert_from_json(&items[i]).is_none() {
                found.push(i);
                assert(places(found@) =~= places(before).push(i as int));
            }
        }
        assert(all.take(items@.len() as int) == all);
    }
    found
}

/// Says which elements of a reply's body [`parse_alerts_lenient`] leaves out,
/// counted from 0. Where it reports an error nothing is left out.
pub fn skipped_elements(body: &str) -> (r: Vec<usize>)
    ensures
        places(r@) == match json_value(body@) {
            Some(JsonView::Array(items)) => skipped(items),
            _ => Seq::empty(),
        },
{
    match parse_json(body) {
        Ok(json) => skipped_in_json(&json),
        Err(_) => {
            let none: Vec<usize> = Vec::new();
            assert(places(none@) =~= Seq::empty());
            none
        },
    }
}

/// The alert carries the given name in its label `alertname`.
pub open spec fn named(alert: AlertView, name: Seq<char>) -> bool {
    alert.labels.contains_key("alertname"@) && alert.labels["alertname"@] == name
}

/// The alert is firing.
pub open spec fn firing(alert: AlertView) -> bool {
    alert.state == "active"@
}

/// The alert is the one that only tests the delivery. With a blank name there
/// is none.
pub open spec fn heartbeat(alert: AlertView, name: Seq<char>) -> bool {
    !blank(name) && named(alert, name)
}

/// An alert of the given name is firing.
pub open spec fn heartbeat_fires(alerts: Seq<AlertView>, name: Seq<char>) -> bool {
    exists|i: int| 0 <= i < alerts.len() && firing(#[trigger] alerts[i]) && named(alerts[i], name)
}

/// Tells whether the alert is firing.
pub fn is_firing(alert: &Alert) -> (r: bool)
    ensures
        r == firing(alert@),
{
    same_text(alert.status.state.as_str(), "active")
}

/// Tells whether the alert carries the given name.
fn is_named(alert: &Alert, name: &str) -> (r: bool)
    ensures
        r == named(alert@, name@),
{
    match alert.labels.get("alertname") {
        Some(s) => same_text(s.as_str(), name),
        None => false,
    }
}

/// Tells whether the heartbeat alert is among those that fire.
pub fn alerts_contain_firing_heartbeat(alerts: &[Alert], heartbeat_alert_name: &str) -> (r: bool)
    ensures
        r == heartbeat_fires(alert_views(alerts@), heartbeat_alert_name@),
{
    let ghost all = alert_views(alerts@);
    for i in 0..alerts.len()
        invariant
            all == alert_views(alerts@),
            forall|k: int|
                0 <= k < i ==> !(firing(#[trigger] all[k]) && named(all[k], heartbeat_alert_name@)),
    {
        if is_firing(&alerts[i]) && is_named(&alerts[i], heartbeat_alert_name) {
            assert(all[i as int] == alerts@[i as int]@);
            return true;
        }
    }
    false
}

/// Tells whether the alert is the heartbeat alert, which is never shown.
pub fn is_heartbeat_alert(alert: &Alert, heartbeat_alert_name: &str) -> (r: bool)
    ensures
        r == heartbeat(alert@, heartbeat_alert_name@),
{
    !is_blank(heartbeat_alert_name) && is_named(alert, heartbeat_alert_name)
}

} // verus!
