//! Which alert a JSON value is read as, member by member.

use vstd::prelude::*;
#[allow(unused_imports)]
use crate::alert::{
    AlertView,
    alert_field_names,
    alert_slots,
    lenient_alerts,
    member_slot,
    member_values,
    members_as_texts,
    read_alert,
    read_state,
    read_text_map,
    skipped,
};
#[allow(unused_imports)]
use crate::json::{JsonView, json_value};
#[allow(unused_imports)]
use crate::laws::lemma_field_names_distinct;
#[allow(unused_imports)]
use crate::poll::{Reply, reply_outcome};

verus! {

/// No member has the given name.
pub open spec fn absent(members: Seq<(Seq<char>, JsonView)>, name: Seq<char>) -> bool {
    forall|i: int| 0 <= i < members.len() ==> (#[trigger] members[i]).0 != name
}

/// Member number `i`, and no other, has the given name, and it has the given
/// value.
pub open spec fn given_at(
    members: Seq<(Seq<char>, JsonView)>,
    name: Seq<char>,
    value: JsonView,
    i: int,
) -> bool {
    &&& 0 <= i < members.len()
    &&& members[i].0 == name
    &&& members[i].1 == value
    &&& forall|j: int| 0 <= j < members.len() && j != i ==> (#[trigger] members[j]).0 != name
}

/// One member has the given name, and it has the given value.
pub open spec fn gives(
    members: Seq<(Seq<char>, JsonView)>,
    name: Seq<char>,
    value: JsonView,
) -> bool {
    exists|i: int| given_at(members, name, value, i)
}

/// The status member says that the alert is in the given state: there is none
/// and the state is empty, or its own member `state` says so.
pub open spec fn says_state(members: Seq<(Seq<char>, JsonView)>, state: Seq<char>) -> bool {
    ||| absent(members, "status"@) && state.len() == 0
    ||| exists|status: Seq<(Seq<char>, JsonView)>| #[trigger]
        gives(members, "status"@, JsonView::Object(status)) && {
            ||| absent(status, "state"@) && state.len() == 0
            ||| gives(status, "state"@, JsonView::Text(state))
        }
    ||| gives(members, "status"@, JsonView::Array(Seq::empty())) && state.len() == 0
    ||| gives(members, "status"@, JsonView::Array(seq![JsonView::Text(state)]))
}

/// No member after number `i` has its name.
pub open spec fn last_of_name(members: Seq<(Seq<char>, JsonView)>, i: int) -> bool {
    forall|j: int| i < j < members.len() ==> (#[trigger] members[j]).0 != members[i].0
}

/// The members are all texts, and the map holds under each name the last of
/// them, and nothing else.
pub open spec fn are_texts(
    members: Seq<(Seq<char>, JsonView)>,
    map: Map<Seq<char>, Seq<char>>,
) -> bool {
    &&& forall|i: int| 0 <= i < members.len() ==> (#[trigger] members[i]).1 is Text
    &&& forall|k: Seq<char>| #[trigger] map.contains_key(k) <==> !absent(members, k)
    &&& forall|i: int|
        0 <= i < members.len() && #[trigger] last_of_name(members, i) ==> members[i].1
            == JsonView::Text(map[members[i].0])
}

/// The member of the given name says that the map holds what it does.
pub open spec fn says_texts(
    members: Seq<(Seq<char>, JsonView)>,
    name: Seq<char>,
    map: Map<Seq<char>, Seq<char>>,
) -> bool {
    ||| absent(members, name) && map == Map::<Seq<char>, Seq<char>>::empty()
    ||| exists|texts: Seq<(Seq<char>, JsonView)>| #[trigger]
        gives(members, name, JsonView::Object(texts)) && are_texts(texts, map)
}

/// The member of the given name says that the text is there or not.
pub open spec fn says_optional(
    members: Seq<(Seq<char>, JsonView)>,
    name: Seq<char>,
    text: Option<Seq<char>>,
) -> bool {
    match text {
        None => absent(members, name) || gives(members, name, JsonView::Null),
        Some(t) => gives(members, name, JsonView::Text(t)),
    }
}

/// The members describe the alert.
pub open spec fn describes(members: Seq<(Seq<char>, JsonView)>, alert: AlertView) -> bool {
    &&& gives(members, "fingerprint"@, JsonView::Text(alert.fingerprint))
    &&& says_state(members, alert.state)
    &&& says_texts(members, "labels"@, alert.labels)
    &&& says_texts(members, "annotations"@, alert.annotations)
    &&& gives(members, "startsAt"@, JsonView::Text(alert.starts_at))
    &&& says_optional(members, "generatorURL"@, alert.generator_url)
    &&& says_optional(members, "sourceURL"@, alert.source_url)
}

proof fn lemma_member_values(members: Seq<(Seq<char>, JsonView)>, name: Seq<char>)
    ensures
        member_values(members, name).len() == 0 <==> absent(members, name),
        member_values(members, name).len() == 1 ==> gives(
            members,
            name,
            member_values(members, name)[0],
        ),
        forall|value: JsonView| #[trigger]
            gives(members, name, value) ==> member_values(members, name) == seq![value],
    decreases members.len(),
{
    if members.len() > 0 {
        let front = members.drop_last();
        let at = members.len() - 1;
        lemma_member_values(front, name);
        assert(members[at] == members.last());
        assert forall|i: int| 0 <= i < front.len() implies #[trigger] members[i] == front[i] by {}
        if absent(members, name) {
            assert forall|i: int| 0 <= i < front.len() implies (#[trigger] front[i]).0 != name by {
                assert(members[i].0 != name);
            }
        }
        if member_values(members, name).len() == 0 {
            assert(members.last().0 != name);
            assert forall|i: int| 0 <= i < members.len() implies (#[trigger] members[i]).0
                != name by {
                if i < at {
                    assert(front[i].0 != name);
                }
            }
        }
        if member_values(members, name).len() == 1 {
            let value = member_values(members, name)[0];
            if members.last().0 == name {
                assert(absent(front, name));
                assert(given_at(members, name, value, at)) by {
                    assert forall|j: int| 0 <= j < members.len() && j != at implies (
                    #[trigger] members[j]).0 != name by {
                        assert(front[j].0 != name);
                    }
                }
            } else {
                let i = choose|i: int| given_at(front, name, value, i);
                assert(given_at(members, name, value, i)) by {
                    assert forall|j: int| 0 <= j < members.len() && j != i implies (
                    #[trigger] members[j]).0 != name by {
                        if j < at {
                            assert(front[j].0 != name);
                        }
                    }
                }
            }
        }
        assert forall|value: JsonView| #[trigger] gives(members, name, value) implies member_values(
            members,
            name,
        ) == seq![value] by {
            let i = choose|i: int| given_at(members, name, value, i);
            if i == at {
                assert(absent(front, name)) by {
                    assert forall|j: int| 0 <= j < front.len() implies (#[trigger] front[j]).0
                        != name by {
                        assert(members[j].0 != name);
                    }
                }
                assert(member_values(members, name) =~= seq![value]);
            } else {
                assert(members[at].0 != name);
                assert(given_at(front, name, value, i)) by {
                    assert forall|j: int| 0 <= j < front.len() && j != i implies (
                    #[trigger] front[j]).0 != name by {
                        assert(members[j].0 != name);
                    }
                }
                assert(gives(front, name, value));
            }
        }
    }
}

/// Among the members of one name there is a last one.
proof fn lemma_last_of_name(members: Seq<(Seq<char>, JsonView)>, name: Seq<char>) -> (i: int)
    requires
        !absent(members, name),
    ensures
        0 <= i < members.len(),
        members[i].0 == name,
        last_of_name(members, i),
    decreases members.len(),
{
    let at = members.len() - 1;
    if members[at].0 == name {
        at
    } else {
        let front = members.drop_last();
        assert(!absent(front, name)) by {
            let j = choose|j: int| 0 <= j < members.len() && (#[trigger] members[j]).0 == name;
            assert(front[j].0 == name);
        }
        let i = lemma_last_of_name(front, name);
        assert forall|j: int| i < j < members.len() implies (#[trigger] members[j]).0
            != members[i].0 by {
            if j < at {
                assert(front[j].0 != front[i].0);
            }
        }
        i
    }
}

proof fn lemma_texts(members: Seq<(Seq<char>, JsonView)>)
    ensures
        match members_as_texts(members) {
            Some(map) => are_texts(members, map),
            None => exists|i: int| 0 <= i < members.len() && !((#[trigger] members[i]).1 is Text),
        },
    decreases members.len(),
{
    if members.len() > 0 {
        let front = members.drop_last();
        let at = members.len() - 1;
        lemma_texts(front);
        assert(members[at] == members.last());
        match members_as_texts(members) {
            Some(map) => {
                let before = members_as_texts(front)->0;
                assert forall|i: int| 0 <= i < members.len() implies (
                #[trigger] members[i]).1 is Text by {
                    if i < at {
                        assert(front[i].1 is Text);
                    }
                }
                assert forall|k: Seq<char>| #[trigger] map.contains_key(k) <==> !absent(
                    members,
                    k,
                ) by {
                    assert(before.contains_key(k) <==> !absent(front, k));
                    if !absent(front, k) {
                        let j = choose|j: int|
                            0 <= j < front.len() && (#[trigger] front[j]).0 == k;
                        assert(members[j].0 == k);
                    }
                    if !absent(members, k) {
                        let j = choose|j: int|
                            0 <= j < members.len() && (#[trigger] members[j]).0 == k;
                        if j < at {
                            assert(front[j].0 == k);
                        }
                    }
                }
                assert forall|i: int|
                    0 <= i < members.len() && #[trigger] last_of_name(
                        members,
                        i,
                    ) implies members[i].1 == JsonView::Text(map[members[i].0]) by {
                    if i < at {
                        assert(members[at].0 != members[i].0);
                        assert(last_of_name(front, i)) by {
                            assert forall|j: int| i < j < front.len() implies (
                            #[trigger] front[j]).0 != front[i].0 by {
                                assert(members[j].0 != members[i].0);
                            }
                        }
                    }
                }
            },
            None => {
                if members_as_texts(front) is None {
                    let i = choose|i: int|
                        0 <= i < front.len() && !((#[trigger] front[i]).1 is Text);
                    assert(!(members[i].1 is Text));
                } else {
                    assert(!(members[at].1 is Text));
                }
            },
        }
    }
}

/// The members are texts with the given map exactly if they are read as it.
proof fn lemma_texts_read(
    members: Seq<(Seq<char>, JsonView)>,
    map: Map<Seq<char>, Seq<char>>,
)
    ensures
        members_as_texts(members) == Some(map) <==> are_texts(members, map),
{
    lemma_texts(members);
    if are_texts(members, map) {
        let read = members_as_texts(members)->0;
        assert(members_as_texts(members) is Some);
        assert forall|k: Seq<char>| map.contains_key(k) <==> read.contains_key(k) by {}
        assert forall|k: Seq<char>| map.contains_key(k) implies map[k] == read[k] by {
            let i = lemma_last_of_name(members, k);
            assert(last_of_name(members, i));
        }
        assert(map =~= read);
    }
}

/// The slot of a name that is not repeated.
proof fn lemma_slot(members: Seq<(Seq<char>, JsonView)>, name: Seq<char>)
    ensures
        member_values(members, name).len() <= 1 ==> match member_slot(members, name) {
            None => absent(members, name),
            Some(value) => gives(members, name, value),
        },
        absent(members, name) ==> member_slot(members, name) is None && member_values(
            members,
            name,
        ).len() == 0,
        forall|value: JsonView| #[trigger]
            gives(members, name, value) ==> member_slot(members, name) == Some(value)
                && member_values(members, name).len() == 1,
{
    lemma_member_values(members, name);
}

proof fn lemma_state_read(members: Seq<(Seq<char>, JsonView)>, state: Seq<char>)
    ensures
        member_values(members, "status"@).len() <= 1 && read_state(
            member_slot(members, "status"@),
        ) == Some(state) <==> says_state(members, state),
{
    lemma_slot(members, "status"@);
    let few = member_values(members, "status"@).len() <= 1;
    match member_slot(members, "status"@) {
        None => {
            if state.len() == 0 {
                assert(state =~= Seq::empty());
            }
        },
        Some(JsonView::Object(status)) => {
            lemma_member_values(status, "state"@);
            if few && read_state(member_slot(members, "status"@)) == Some(state) {
                assert(gives(members, "status"@, JsonView::Object(status)));
            }
            if says_state(members, state) {
                if state.len() == 0 {
                    assert(state =~= Seq::empty());
                }
            }
        },
        Some(JsonView::Array(items)) => {
            if few && read_state(member_slot(members, "status"@)) == Some(state) {
                assert(gives(members, "status"@, JsonView::Array(items)));
                if items.len() == 0 {
                    assert(items =~= Seq::empty());
                } else {
                    assert(items =~= seq![JsonView::Text(state)]);
                }
            }
            if says_state(members, state) {
                if state.len() == 0 {
                    assert(state =~= Seq::empty());
                }
                let empty = Seq::<JsonView>::empty();
                let one = seq![JsonView::Text(state)];
                assert(empty.len() == 0 && one.len() == 1 && one[0] == JsonView::Text(state));
            }
        },
        Some(_) => {},
    }
}

proof fn lemma_text_map_read(
    members: Seq<(Seq<char>, JsonView)>,
    name: Seq<char>,
    map: Map<Seq<char>, Seq<char>>,
)
    ensures
        member_values(members, name).len() <= 1 && read_text_map(member_slot(members, name))
            == Some(map) <==> says_texts(members, name, map),
{
    lemma_slot(members, name);
    if let Some(JsonView::Object(texts)) = member_slot(members, name) {
        lemma_texts_read(texts, map);
    }
}

/// An object is read as an alert exactly if its members describe it: the
/// fingerprint and the start are there and are texts, every other field says
/// what the alert holds or is absent, and no field is repeated. Members with
/// other names play no part.
pub proof fn law_object_read(members: Seq<(Seq<char>, JsonView)>, alert: AlertView)
    ensures
        read_alert(JsonView::Object(members)) == Some(alert) <==> describes(members, alert),
{
    let names = alert_field_names();
    lemma_slot(members, "fingerprint"@);
    lemma_slot(members, "startsAt"@);
    lemma_slot(members, "generatorURL"@);
    lemma_slot(members, "sourceURL"@);
    lemma_state_read(members, alert.state);
    lemma_text_map_read(members, "labels"@, alert.labels);
    lemma_text_map_read(members, "annotations"@, alert.annotations);
    assert(names[0] == "fingerprint"@ && names[1] == "status"@ && names[2] == "labels"@ && names[3]
        == "annotations"@ && names[4] == "startsAt"@ && names[5] == "generatorURL"@ && names[6]
        == "sourceURL"@);
    let json = JsonView::Object(members);
    if read_alert(json) == Some(alert) {
        let f = alert_slots(json)->0;
        assert(forall|i: int| 0 <= i < 7 ==> member_values(members, #[trigger] names[i]).len() <= 1);
        assert(f[0] == member_slot(members, names[0]));
        assert(f[4] == member_slot(members, names[4]));
    }
    if describes(members, alert) {
        assert forall|i: int| 0 <= i < 7 implies member_values(
            members,
            #[trigger] names[i],
        ).len() <= 1 by {
            assert(i == 0 || i == 1 || i == 2 || i == 3 || i == 4 || i == 5 || i == 6);
        }
        let f = alert_slots(json)->0;
        assert(f[0] == member_slot(members, names[0]));
    }
}

/// The state of an alert is the text of the member `state` of its status,
/// whatever other members the status has.
pub proof fn law_state_of_status(
    members: Seq<(Seq<char>, JsonView)>,
    status: Seq<(Seq<char>, JsonView)>,
    state: Seq<char>,
)
    requires
        read_alert(JsonView::Object(members)) is Some,
        gives(members, "status"@, JsonView::Object(status)),
        gives(status, "state"@, JsonView::Text(state)),
    ensures
        (read_alert(JsonView::Object(members))->0).state == state,
{
    let alert = read_alert(JsonView::Object(members))->0;
    law_object_read(members, alert);
    lemma_state_read(members, alert.state);
    lemma_slot(members, "status"@);
    lemma_member_values(status, "state"@);
}

/// A member that is no field of an alert makes no difference.
pub proof fn law_unknown_member_ignored(
    members: Seq<(Seq<char>, JsonView)>,
    name: Seq<char>,
    value: JsonView,
)
    requires
        name != "fingerprint"@,
        name != "status"@,
        name != "labels"@,
        name != "annotations"@,
        name != "startsAt"@,
        name != "generatorURL"@,
        name != "sourceURL"@,
    ensures
        read_alert(JsonView::Object(members.push((name, value)))) == read_alert(
            JsonView::Object(members),
        ),
{
    let names = alert_field_names();
    let more = members.push((name, value));
    assert(more.drop_last() == members);
    assert forall|i: int| 0 <= i < 7 implies member_values(more, #[trigger] names[i])
        == member_values(members, names[i]) by {
        assert(i == 0 || i == 1 || i == 2 || i == 3 || i == 4 || i == 5 || i == 6);
    }
    let a = alert_slots(JsonView::Object(members));
    let b = alert_slots(JsonView::Object(more));
    if a is Some {
        assert(b is Some);
        assert(a->0 =~= b->0) by {
            assert forall|i: int| 0 <= i < 7 implies (a->0)[i] == (b->0)[i] by {
                assert((a->0)[i] == member_slot(members, names[i]));
                assert((b->0)[i] == member_slot(more, names[i]));
            }
        }
    } else {
        let i = choose|i: int|
            0 <= i < 7 && !(member_values(members, #[trigger] names[i]).len() <= 1);
        assert(member_values(more, names[i]).len() > 1);
    }
}

/// The items as members, each under the name of the field at its position.
pub open spec fn named_items(items: Seq<JsonView>) -> Seq<(Seq<char>, JsonView)> {
    let names = seq![
        "fingerprint"@,
        "status"@,
        "labels"@,
        "annotations"@,
        "startsAt"@,
        "generatorURL"@,
        "sourceURL"@,
    ];
    Seq::new(items.len(), |i: int| (names[i], items[i]))
}

/// An array is read by position as an object is by name. Only the last field
/// can be left out, and nothing but objects and arrays is read.
pub proof fn law_array_read(items: Seq<JsonView>, b: bool, text: Seq<char>)
    ensures
        items.len() == 6 || items.len() == 7 ==> read_alert(JsonView::Array(items)) == read_alert(
            JsonView::Object(named_items(items)),
        ),
        items.len() < 6 || items.len() > 7 ==> read_alert(JsonView::Array(items)) is None,
        read_alert(JsonView::Null) is None,
        read_alert(JsonView::Bool(b)) is None,
        read_alert(JsonView::Number(text)) is None,
        read_alert(JsonView::Text(text)) is None,
{
    if items.len() == 6 || items.len() == 7 {
        let names = alert_field_names();
        let members = named_items(items);
        lemma_field_names_distinct();
        assert forall|i: int| 0 <= i < 7 implies member_values(members, #[trigger] names[i]).len()
            <= 1 && member_slot(members, names[i]) == if i < items.len() {
            Some(items[i])
        } else {
            None
        } by {
            lemma_slot(members, names[i]);
            if i < items.len() {
                assert(given_at(members, names[i], items[i], i)) by {
                    assert forall|j: int| 0 <= j < members.len() && j != i implies (
                    #[trigger] members[j]).0 != names[i] by {
                        assert(members[j].0 == names[j]);
                    }
                }
                assert(gives(members, names[i], items[i]));
            } else {
                assert(absent(members, names[i])) by {
                    assert forall|j: int| 0 <= j < members.len() implies (
                    #[trigger] members[j]).0 != names[i] by {
                        assert(members[j].0 == names[j]);
                    }
                }
            }
        }
        let a = alert_slots(JsonView::Array(items));
        let o = alert_slots(JsonView::Object(members));
        assert(a->0 =~= o->0) by {
            assert forall|i: int| 0 <= i < 7 implies (a->0)[i] == (o->0)[i] by {
                assert((o->0)[i] == member_slot(members, names[i]));
            }
        }
    }
}

/// A reply with one element gives the alert that the element is read as, or
/// none. Those with more give the alerts of their parts.
pub proof fn law_one_element(item: JsonView)
    ensures
        lenient_alerts(Seq::empty()).len() == 0,
        lenient_alerts(seq![item]) == match read_alert(item) {
            Some(alert) => seq![alert],
            None => Seq::empty(),
        },
{
    let none = Seq::<JsonView>::empty();
    assert(seq![item].drop_last() =~= none);
    assert(seq![item].last() == item);
    assert(lenient_alerts(none) =~= Seq::<AlertView>::empty());
    if let Some(alert) = read_alert(item) {
        assert(lenient_alerts(seq![item]) =~= seq![alert]);
    }
}

/// The skipped elements are told in order.
pub proof fn law_skipped_in_order(items: Seq<JsonView>)
    ensures
        forall|i: int, j: int|
            0 <= i < j < skipped(items).len() ==> #[trigger] skipped(items)[i]
                < #[trigger] skipped(items)[j],
        forall|i: int|
            0 <= i < skipped(items).len() ==> 0 <= #[trigger] skipped(items)[i] < items.len(),
    decreases items.len(),
{
    if items.len() > 0 {
        let front = skipped(items.drop_last());
        let all = skipped(items);
        law_skipped_in_order(items.drop_last());
        assert forall|i: int| 0 <= i < front.len() implies #[trigger] all[i] == front[i] by {}
        assert forall|i: int| 0 <= i < all.len() implies 0 <= #[trigger] all[i]
            < items.len() by {
            if i < front.len() {
                assert(front[i] < items.len() - 1);
            }
        }
        assert forall|i: int, j: int| 0 <= i < j < all.len() implies #[trigger] all[i]
            < #[trigger] all[j] by {
            assert(front[i] < items.len() - 1);
            if j < front.len() {
                assert(front[i] < front[j]);
            }
        }
    }
}

/// A reply is answered with alerts exactly if it is the body of a successful
/// response and a JSON array. Anything else is an error, in the words for it.
pub proof fn law_reply_outcome(reply: Reply)
    ensures
        reply_outcome(reply) is Ok <==> reply is Body && json_value(reply->Body_0@) is Some
            && json_value(reply->Body_0@)->0 is Array,
        reply_outcome(reply) matches Ok(alerts) ==> alerts == lenient_alerts(
            json_value(reply->Body_0@)->0->Array_0,
        ),
        reply_outcome(reply) matches Err(message) ==> match reply {
            Reply::ConnectionFailed(reason) => message == "Connection Error: "@ + reason@,
            Reply::HttpError(status) => message == "HTTP Error: "@ + status@,
            Reply::Unreadable => message == "JSON Parsing Error"@,
            Reply::Body(_) => message == "JSON Parsing Error"@,
        },
{
}

} // verus!
