//! The tagless wire shape of a plan, and its codec.
//!
//! A plan travels as a JSON-like dynamic value. Neither a step nor an action
//! group carries a discriminant tag on the wire: a step that is a bare
//! number is a delay, a structured one is an action group; a group that is
//! an array is concurrent ("multi"), an object is a single action. Decoders
//! disambiguate structurally, in the fixed order number, then array, then
//! object. The identifier field is written as `u` and accepted on input as
//! `u` or the legacy alias `uuid`.

use vstd::prelude::*;
use eva_common::OID;
use eva_common::actions::Params;
use uuid::Uuid;
use crate::ext::{uuid_chars_of, uuid_of_chars, uuid_format, uuid_parse, oid_clone, params_clone};
use crate::model::{ActionModel, GroupModel, EntryModel, PlanModel};
use crate::seq_owned::{
    SequenceOwned, SequenceEntryOwned, SequenceActionEntryOwned, SequenceActionOwned,
};
use crate::seq::{Sequence, SequenceEntry, SequenceActionEntry, SequenceAction};

verus! {

/// One node of the wire-level dynamic value. Durations are integer
/// microseconds here; a profile whose wire numbers are float seconds
/// converts each number leaf outside this crate's verified core.
pub enum WireValue {
    /// A bare non-negative number (a duration in microseconds).
    Num(u64),
    /// A text node (the plan identifier).
    Text(String),
    /// An array node.
    List(Vec<WireValue>),
    /// An object node: field names with values, in writing order.
    Object(Vec<(String, WireValue)>),
    /// An opaque action target identifier, serialized by the host layer.
    Target(OID),
    /// An opaque action parameter payload, serialized by the host layer.
    Payload(Params),
    /// An explicit null.
    Null,
}

/// The mathematical shape of a wire node.
#[verifier::ext_equal]
pub enum WireModel {
    Num(u64),
    Text(Seq<char>),
    List(Seq<WireModel>),
    Object(Seq<(Seq<char>, WireModel)>),
    Target(OID),
    Payload(Params),
    Null,
}

/// The decoding failures the codec can report.
#[derive(Clone, Copy, Debug, PartialEq, Eq, Structural)]
pub enum WireError {
    /// The identifier field does not hold a valid identifier string.
    BadIdentifier,
    /// A duration field does not hold a bare number.
    BadDuration,
    /// A node has none of the shapes the format admits, or a required
    /// field is missing.
    BadShape,
}

pub open spec fn wire_view(w: WireValue) -> WireModel
    decreases w,
{
    match w {
        WireValue::Num(n) => WireModel::Num(n),
        WireValue::Text(s) => WireModel::Text(s@),
        WireValue::List(items) => WireModel::List(list_view(items@)),
        WireValue::Object(fields) => WireModel::Object(obj_view(fields@)),
        WireValue::Target(o) => WireModel::Target(o),
        WireValue::Payload(p) => WireModel::Payload(p),
        WireValue::Null => WireModel::Null,
    }
}

pub open spec fn list_view(s: Seq<WireValue>) -> Seq<WireModel>
    decreases s,
{
    if s.len() == 0 {
        Seq::empty()
    } else {
        list_view(s.drop_last()).push(wire_view(s.last()))
    }
}

pub open spec fn obj_view(s: Seq<(String, WireValue)>) -> Seq<(Seq<char>, WireModel)>
    decreases s,
{
    if s.len() == 0 {
        Seq::empty()
    } else {
        obj_view(s.drop_last()).push((s.last().0@, wire_view(s.last().1)))
    }
}

impl View for WireValue {
    type V = WireModel;

    open spec fn view(&self) -> WireModel {
        wire_view(*self)
    }
}

pub proof fn lemma_list_view(s: Seq<WireValue>)
    ensures
        list_view(s).len() == s.len(),
        forall|i: int| 0 <= i < s.len() ==> list_view(s)[i] == wire_view(s[i]),
    decreases s,
{
    if s.len() > 0 {
        lemma_list_view(s.drop_last());
    }
}

pub proof fn lemma_obj_view(s: Seq<(String, WireValue)>)
    ensures
        obj_view(s).len() == s.len(),
        forall|i: int| 0 <= i < s.len() ==> obj_view(s)[i] == (s[i].0@, wire_view(s[i].1)),
    decreases s,
{
    if s.len() > 0 {
        lemma_obj_view(s.drop_last());
    }
}

/// The canonical identifier field name.
pub open spec fn key_ident() -> Seq<char> {
    "u"@
}

/// The legacy identifier field name, accepted on input only.
pub open spec fn key_ident_alias() -> Seq<char> {
    "uuid"@
}

pub open spec fn key_steps() -> Seq<char> {
    "seq"@
}

pub open spec fn key_on_abort() -> Seq<char> {
    "on_abort"@
}

pub open spec fn key_timeout() -> Seq<char> {
    "timeout"@
}

pub open spec fn key_target() -> Seq<char> {
    "i"@
}

pub open spec fn key_params() -> Seq<char> {
    "params"@
}

pub open spec fn key_wait() -> Seq<char> {
    "wait"@
}

/// First-match field lookup, searching from position `i`.
pub open spec fn lookup_from(
    fields: Seq<(Seq<char>, WireModel)>,
    key: Seq<char>,
    i: int,
) -> Option<WireModel>
    decreases fields.len() - i,
{
    if i < 0 || i >= fields.len() {
        None
    } else if fields[i].0 == key {
        Some(fields[i].1)
    } else {
        lookup_from(fields, key, i + 1)
    }
}

/// First-match field lookup in an object's fields.
pub open spec fn lookup(fields: Seq<(Seq<char>, WireModel)>, key: Seq<char>) -> Option<WireModel> {
    lookup_from(fields, key, 0)
}

// ---------------------------------------------------------------------
// Encoding, specified over the plan model.
// ---------------------------------------------------------------------

pub open spec fn enc_action(a: ActionModel) -> WireModel {
    WireModel::Object(
        seq![
            (key_target(), WireModel::Target(a.target)),
            (
                key_params(),
                match a.params {
                    Some(p) => WireModel::Payload(p),
                    None => WireModel::Null,
                },
            ),
            (key_wait(), WireModel::Num(a.wait)),
        ],
    )
}

pub open spec fn enc_group(g: GroupModel) -> WireModel {
    match g {
        GroupModel::Single(a) => enc_action(a),
        GroupModel::Multi(acts) => WireModel::List(
            acts.map_values(|a: ActionModel| enc_action(a)),
        ),
    }
}

pub open spec fn enc_entry(e: EntryModel) -> WireModel {
    match e {
        EntryModel::Delay(d) => WireModel::Num(d),
        EntryModel::Acts(g) => enc_group(g),
    }
}

pub open spec fn enc_plan(m: PlanModel) -> WireModel {
    WireModel::Object(
        seq![
            (key_ident(), WireModel::Text(uuid_chars_of(m.id))),
            (key_steps(), WireModel::List(m.entries.map_values(|e: EntryModel| enc_entry(e)))),
            (
                key_on_abort(),
                match m.abort {
                    Some(g) => enc_group(g),
                    None => WireModel::Null,
                },
            ),
            (key_timeout(), WireModel::Num(m.timeout)),
        ],
    )
}

// ---------------------------------------------------------------------
// Decoding, specified over the wire model. Structural disambiguation:
// a number is a delay; an array is a concurrent group; an object is a
// single action; anything else is malformed.
// ---------------------------------------------------------------------

pub open spec fn dec_action(w: WireModel) -> Result<ActionModel, WireError> {
    match w {
        WireModel::Object(fields) => match lookup(fields, key_target()) {
            Some(WireModel::Target(o)) => {
                let params_r: Result<Option<Params>, WireError> = match lookup(
                    fields,
                    key_params(),
                ) {
                    None => Ok(None),
                    Some(WireModel::Null) => Ok(None),
                    Some(WireModel::Payload(p)) => Ok(Some(p)),
                    Some(_) => Err(WireError::BadShape),
                };
                match params_r {
                    Err(e) => Err(e),
                    Ok(params) => match lookup(fields, key_wait()) {
                        Some(WireModel::Num(n)) => Ok(
                            ActionModel { target: o, params, wait: n },
                        ),
                        Some(_) => Err(WireError::BadDuration),
                        None => Err(WireError::BadShape),
                    },
                }
            },
            Some(_) => Err(WireError::BadShape),
            None => Err(WireError::BadShape),
        },
        _ => Err(WireError::BadShape),
    }
}

pub open spec fn dec_actions(items: Seq<WireModel>) -> Result<Seq<ActionModel>, WireError>
    decreases items.len(),
{
    if items.len() == 0 {
        Ok(Seq::empty())
    } else {
        match dec_actions(items.drop_last()) {
            Err(e) => Err(e),
            Ok(pre) => match dec_action(items.last()) {
                Err(e) => Err(e),
                Ok(a) => Ok(pre.push(a)),
            },
        }
    }
}

pub open spec fn dec_group(w: WireModel) -> Result<GroupModel, WireError> {
    match w {
        WireModel::Object(_) => match dec_action(w) {
            Ok(a) => Ok(GroupModel::Single(a)),
            Err(e) => Err(e),
        },
        WireModel::List(items) => match dec_actions(items) {
            Ok(acts) => Ok(GroupModel::Multi(acts)),
            Err(e) => Err(e),
        },
        _ => Err(WireError::BadShape),
    }
}

pub open spec fn dec_entry(w: WireModel) -> Result<EntryModel, WireError> {
    match w {
        WireModel::Num(d) => Ok(EntryModel::Delay(d)),
        WireModel::List(_) => match dec_group(w) {
            Ok(g) => Ok(EntryModel::Acts(g)),
            Err(e) => Err(e),
        },
        WireModel::Object(_) => match dec_group(w) {
            Ok(g) => Ok(EntryModel::Acts(g)),
            Err(e) => Err(e),
        },
        _ => Err(WireError::BadShape),
    }
}

pub open spec fn dec_entries(items: Seq<WireModel>) -> Result<Seq<EntryModel>, WireError>
    decreases items.len(),
{
    if items.len() == 0 {
        Ok(Seq::empty())
    } else {
        match dec_entries(items.drop_last()) {
            Err(e) => Err(e),
            Ok(pre) => match dec_entry(items.last()) {
                Err(e) => Err(e),
                Ok(x) => Ok(pre.push(x)),
            },
        }
    }
}

pub open spec fn dec_plan(w: WireModel) -> Result<PlanModel, WireError> {
    match w {
        WireModel::Object(fields) => {
            let idw = if lookup(fields, key_ident()) is Some {
                lookup(fields, key_ident())
            } else {
                lookup(fields, key_ident_alias())
            };
            match idw {
                Some(WireModel::Text(s)) => match uuid_of_chars(s) {
                    Some(id) => match lookup(fields, key_steps()) {
                        Some(WireModel::List(items)) => match dec_entries(items) {
                            Err(e) => Err(e),
                            Ok(entries) => {
                                let abort_r: Result<Option<GroupModel>, WireError> = match lookup(
                                    fields,
                                    key_on_abort(),
                                ) {
                                    None => Ok(None),
                                    Some(WireModel::Null) => Ok(None),
                                    Some(gw) => match dec_group(gw) {
                                        Ok(g) => Ok(Some(g)),
                                        Err(e) => Err(e),
                                    },
                                };
                                match abort_r {
                                    Err(e) => Err(e),
                                    Ok(abort) => match lookup(fields, key_timeout()) {
                                        Some(WireModel::Num(t)) => Ok(
                                            PlanModel { id, entries, abort, timeout: t },
                                        ),
                                        Some(_) => Err(WireError::BadDuration),
                                        None => Err(WireError::BadShape),
                                    },
                                }
                            },
                        },
                        Some(_) => Err(WireError::BadShape),
                        None => Err(WireError::BadShape),
                    },
                    None => Err(WireError::BadIdentifier),
                },
                Some(_) => Err(WireError::BadIdentifier),
                None => Err(WireError::BadShape),
            }
        },
        _ => Err(WireError::BadShape),
    }
}

// ---------------------------------------------------------------------
// The encoding and the decoding are inverse: spec-level round trip.
// ---------------------------------------------------------------------

proof fn lemma_keys()
    ensures
        key_target() != key_params(),
        key_target() != key_wait(),
        key_params() != key_wait(),
        key_ident() != key_steps(),
        key_ident() != key_on_abort(),
        key_ident() != key_timeout(),
        key_steps() != key_on_abort(),
        key_steps() != key_timeout(),
        key_on_abort() != key_timeout(),
        key_ident_alias() != key_ident(),
        key_ident_alias() != key_steps(),
        key_ident_alias() != key_on_abort(),
        key_ident_alias() != key_timeout(),
{
    reveal_strlit("u");
    reveal_strlit("uuid");
    reveal_strlit("seq");
    reveal_strlit("on_abort");
    reveal_strlit("timeout");
    reveal_strlit("i");
    reveal_strlit("params");
    reveal_strlit("wait");
    assert(key_ident().len() == 1);
    assert(key_ident_alias().len() == 4);
    assert(key_steps().len() == 3);
    assert(key_on_abort().len() == 8);
    assert(key_timeout().len() == 7);
    assert(key_target().len() == 1);
    assert(key_params().len() == 6);
    assert(key_wait().len() == 4);
}

/// A wire object that names the identifier by the legacy alias decodes
/// exactly as the same object naming it by the canonical key.
pub proof fn lemma_alias_accepts_legacy_key(
    id: WireModel,
    steps: WireModel,
    abort: WireModel,
    timeout: WireModel,
)
    ensures
        dec_plan(
            WireModel::Object(
                seq![
                    (key_ident_alias(), id),
                    (key_steps(), steps),
                    (key_on_abort(), abort),
                    (key_timeout(), timeout),
                ],
            ),
        ) == dec_plan(
            WireModel::Object(
                seq![
                    (key_ident(), id),
                    (key_steps(), steps),
                    (key_on_abort(), abort),
                    (key_timeout(), timeout),
                ],
            ),
        ),
{
    lemma_keys();
    let fa = seq![
        (key_ident_alias(), id),
        (key_steps(), steps),
        (key_on_abort(), abort),
        (key_timeout(), timeout),
    ];
    let fc = seq![
        (key_ident(), id),
        (key_steps(), steps),
        (key_on_abort(), abort),
        (key_timeout(), timeout),
    ];
    // In the aliased object the canonical key is absent, so the decoder
    // falls back to the alias and finds the same identifier node.
    assert(lookup_from(fa, key_ident(), 0) == lookup_from(fa, key_ident(), 1));
    assert(lookup_from(fa, key_ident(), 1) == lookup_from(fa, key_ident(), 2));
    assert(lookup_from(fa, key_ident(), 2) == lookup_from(fa, key_ident(), 3));
    assert(lookup_from(fa, key_ident(), 3) == lookup_from(fa, key_ident(), 4));
    assert(lookup(fa, key_ident()) is None);
    assert(lookup(fa, key_ident_alias()) == Some(id));
    assert(lookup(fc, key_ident()) == Some(id));
    // The remaining fields are found at the same places in both objects.
    assert(lookup_from(fa, key_steps(), 0) == lookup_from(fa, key_steps(), 1));
    assert(lookup_from(fc, key_steps(), 0) == lookup_from(fc, key_steps(), 1));
    assert(lookup(fa, key_steps()) == Some(steps));
    assert(lookup(fc, key_steps()) == Some(steps));
    assert(lookup_from(fa, key_on_abort(), 0) == lookup_from(fa, key_on_abort(), 1));
    assert(lookup_from(fa, key_on_abort(), 1) == lookup_from(fa, key_on_abort(), 2));
    assert(lookup_from(fc, key_on_abort(), 0) == lookup_from(fc, key_on_abort(), 1));
    assert(lookup_from(fc, key_on_abort(), 1) == lookup_from(fc, key_on_abort(), 2));
    assert(lookup(fa, key_on_abort()) == Some(abort));
    assert(lookup(fc, key_on_abort()) == Some(abort));
    assert(lookup_from(fa, key_timeout(), 0) == lookup_from(fa, key_timeout(), 1));
    assert(lookup_from(fa, key_timeout(), 1) == lookup_from(fa, key_timeout(), 2));
    assert(lookup_from(fa, key_timeout(), 2) == lookup_from(fa, key_timeout(), 3));
    assert(lookup_from(fc, key_timeout(), 0) == lookup_from(fc, key_timeout(), 1));
    assert(lookup_from(fc, key_timeout(), 1) == lookup_from(fc, key_timeout(), 2));
    assert(lookup_from(fc, key_timeout(), 2) == lookup_from(fc, key_timeout(), 3));
    assert(lookup(fa, key_timeout()) == Some(timeout));
    assert(lookup(fc, key_timeout()) == Some(timeout));
}

/// Steps disambiguate structurally, with no tag on the wire: a bare number
/// is a delay, an array is a concurrent action group, an object is a single
/// action, and every other shape is malformed.
pub proof fn lemma_structural_disambiguation(w: WireModel)
    ensures
        forall|d: u64| #[trigger] dec_entry(WireModel::Num(d)) == Ok::<EntryModel, WireError>(
            EntryModel::Delay(d),
        ),
        w is List ==> dec_entry(w) == (match dec_actions(w->List_0) {
            Ok(acts) => Ok::<EntryModel, WireError>(EntryModel::Acts(GroupModel::Multi(acts))),
            Err(e) => Err(e),
        }),
        w is Object ==> dec_entry(w) == (match dec_action(w) {
            Ok(a) => Ok::<EntryModel, WireError>(EntryModel::Acts(GroupModel::Single(a))),
            Err(e) => Err(e),
        }),
        !(w is Num) && !(w is List) && !(w is Object) ==> dec_entry(w) == Err::<
            EntryModel,
            WireError,
        >(WireError::BadShape),
{
}

/// Decoding an encoded action yields the action back, exactly.
pub proof fn lemma_enc_action_rt(a: ActionModel)
    ensures
        dec_action(enc_action(a)) == Ok::<ActionModel, WireError>(a),
{
    lemma_keys();
    let fields = seq![
        (key_target(), WireModel::Target(a.target)),
        (
            key_params(),
            match a.params {
                Some(p) => WireModel::Payload(p),
                None => WireModel::Null,
            },
        ),
        (key_wait(), WireModel::Num(a.wait)),
    ];
    assert(lookup(fields, key_target()) == Some(WireModel::Target(a.target)));
    assert(lookup_from(fields, key_params(), 0) == lookup_from(fields, key_params(), 1));
    assert(lookup_from(fields, key_wait(), 0) == lookup_from(fields, key_wait(), 1));
    assert(lookup_from(fields, key_wait(), 1) == lookup_from(fields, key_wait(), 2));
    assert(lookup(fields, key_wait()) == Some(WireModel::Num(a.wait)));
}

/// Decoding an encoded list of actions yields the list back, exactly.
pub proof fn lemma_enc_actions_rt(acts: Seq<ActionModel>)
    ensures
        dec_actions(acts.map_values(|a: ActionModel| enc_action(a))) == Ok::<
            Seq<ActionModel>,
            WireError,
        >(acts),
    decreases acts.len(),
{
    let ws = acts.map_values(|a: ActionModel| enc_action(a));
    if acts.len() == 0 {
        assert(ws.len() == 0);
        assert(Seq::<ActionModel>::empty() =~= acts);
    } else {
        lemma_enc_actions_rt(acts.drop_last());
        assert(ws.drop_last() =~= acts.drop_last().map_values(|a: ActionModel| enc_action(a)));
        assert(ws.last() == enc_action(acts.last()));
        lemma_enc_action_rt(acts.last());
        assert(acts.drop_last().push(acts.last()) =~= acts);
    }
}

/// Decoding an encoded action group yields the group back, exactly.
pub proof fn lemma_enc_group_rt(g: GroupModel)
    ensures
        dec_group(enc_group(g)) == Ok::<GroupModel, WireError>(g),
{
    match g {
        GroupModel::Single(a) => {
            lemma_enc_action_rt(a);
        },
        GroupModel::Multi(acts) => {
            lemma_enc_actions_rt(acts);
        },
    }
}

/// Decoding an encoded step yields the step back, exactly.
pub proof fn lemma_enc_entry_rt(e: EntryModel)
    ensures
        dec_entry(enc_entry(e)) == Ok::<EntryModel, WireError>(e),
{
    match e {
        EntryModel::Delay(_) => {},
        EntryModel::Acts(g) => {
            lemma_enc_group_rt(g);
        },
    }
}

/// Decoding an encoded step list yields the steps back, exactly and in
/// order.
pub proof fn lemma_enc_entries_rt(entries: Seq<EntryModel>)
    ensures
        dec_entries(entries.map_values(|e: EntryModel| enc_entry(e))) == Ok::<
            Seq<EntryModel>,
            WireError,
        >(entries),
    decreases entries.len(),
{
    let ws = entries.map_values(|e: EntryModel| enc_entry(e));
    if entries.len() == 0 {
        assert(ws.len() == 0);
        assert(Seq::<EntryModel>::empty() =~= entries);
    } else {
        lemma_enc_entries_rt(entries.drop_last());
        assert(ws.drop_last() =~= entries.drop_last().map_values(
            |e: EntryModel| enc_entry(e),
        ));
        assert(ws.last() == enc_entry(entries.last()));
        lemma_enc_entry_rt(entries.last());
        assert(entries.drop_last().push(entries.last()) =~= entries);
    }
}

/// Decoding an encoded plan yields the plan back, exactly, provided the
/// identifier's text form reads back as that identifier (which the trusted
/// formatting wrapper guarantees of every identifier it renders).
pub proof fn lemma_enc_plan_rt(m: PlanModel)
    requires
        uuid_of_chars(uuid_chars_of(m.id)) == Some(m.id),
    ensures
        dec_plan(enc_plan(m)) == Ok::<PlanModel, WireError>(m),
{
    lemma_keys();
    let fields = seq![
        (key_ident(), WireModel::Text(uuid_chars_of(m.id))),
        (key_steps(), WireModel::List(m.entries.map_values(|e: EntryModel| enc_entry(e)))),
        (
            key_on_abort(),
            match m.abort {
                Some(g) => enc_group(g),
                None => WireModel::Null,
            },
        ),
        (key_timeout(), WireModel::Num(m.timeout)),
    ];
    assert(lookup(fields, key_ident()) == Some(WireModel::Text(uuid_chars_of(m.id))));
    assert(lookup_from(fields, key_steps(), 0) == lookup_from(fields, key_steps(), 1));
    assert(lookup(fields, key_steps()) == Some(
        WireModel::List(m.entries.map_values(|e: EntryModel| enc_entry(e))),
    ));
    assert(lookup_from(fields, key_on_abort(), 0) == lookup_from(fields, key_on_abort(), 1));
    assert(lookup_from(fields, key_on_abort(), 1) == lookup_from(fields, key_on_abort(), 2));
    assert(lookup_from(fields, key_timeout(), 0) == lookup_from(fields, key_timeout(), 1));
    assert(lookup_from(fields, key_timeout(), 1) == lookup_from(fields, key_timeout(), 2));
    assert(lookup_from(fields, key_timeout(), 2) == lookup_from(fields, key_timeout(), 3));
    assert(lookup(fields, key_timeout()) == Some(WireModel::Num(m.timeout)));
    lemma_enc_entries_rt(m.entries);
    match m.abort {
        Some(g) => {
            lemma_enc_group_rt(g);
            // The abort group encodes as an object or an array, never as a
            // null, so the decoder reads it back as a present group.
            match g {
                GroupModel::Single(_) => {},
                GroupModel::Multi(_) => {},
            }
        },
        None => {},
    }
}

// ---------------------------------------------------------------------
// Executable encoding.
// ---------------------------------------------------------------------

fn action_parts_to_wire(oid: &OID, params: &Option<Params>, wait: u64) -> (r: WireValue)
    ensures
        r@ == enc_action(ActionModel { target: *oid, params: *params, wait }),
{
    let mut fields: Vec<(String, WireValue)> = Vec::new();
    fields.push(("i".to_owned(), WireValue::Target(oid_clone(oid))));
    let pv: WireValue = match params {
        Some(p) => WireValue::Payload(params_clone(p)),
        None => WireValue::Null,
    };
    fields.push(("params".to_owned(), pv));
    fields.push(("wait".to_owned(), WireValue::Num(wait)));
    let ghost fs = fields@;
    let r = WireValue::Object(fields);
    proof {
        lemma_obj_view(fs);
        let w = enc_action(ActionModel { target: *oid, params: *params, wait });
        let f = w->Object_0;
        assert(f.len() == 3);
        assert(obj_view(fs).len() == 3);
        assert(obj_view(fs)[0] == f[0]);
        assert(obj_view(fs)[1] == f[1]);
        assert(obj_view(fs)[2] == f[2]);
        assert(obj_view(fs) =~= f);
        assert(r@ == WireModel::Object(obj_view(fs)));
        assert(r@ =~~= enc_action(ActionModel { target: *oid, params: *params, wait }));
    }
    r
}

fn action_to_wire(a: &SequenceActionOwned) -> (r: WireValue)
    ensures
        r@ == enc_action(a@),
{
    action_parts_to_wire(&a.oid, &a.params, a.wait)
}

fn group_to_wire(g: &SequenceActionEntryOwned) -> (r: WireValue)
    ensures
        r@ == enc_group(g@),
{
    match g {
        SequenceActionEntryOwned::Single(a) => action_to_wire(a),
        SequenceActionEntryOwned::Multi(acts) => {
            let ghost ms = acts@.map_values(|a: SequenceActionOwned| a@);
            let mut items: Vec<WireValue> = Vec::new();
            let n: usize = acts.len();
            let mut i: usize = 0;
            proof {
                assert(ms.take(0) =~= Seq::<ActionModel>::empty());
                assert(list_view(items@) =~= ms.take(0).map_values(
                    |m: ActionModel| enc_action(m),
                ));
            }
            while i < n
                invariant
                    i <= n,
                    n == acts.len(),
                    ms == acts@.map_values(|a: SequenceActionOwned| a@),
                    ms.len() == n,
                    items@.len() == i,
                    list_view(items@) == ms.take(i as int).map_values(
                        |m: ActionModel| enc_action(m),
                    ),
                decreases n - i,
            {
                let item = action_to_wire(&acts[i]);
                let ghost prev = items@;
                items.push(item);
                proof {
                    assert(items@.drop_last() =~= prev);
                    assert(ms[i as int] == acts@[i as int]@);
                    assert(ms.take(i as int + 1).map_values(|m: ActionModel| enc_action(m)) =~= ms
                        .take(i as int).map_values(|m: ActionModel| enc_action(m)).push(
                        enc_action(ms[i as int]),
                    ));
                    assert(list_view(items@) == ms.take(i as int + 1).map_values(
                        |m: ActionModel| enc_action(m),
                    ));
                }
                i = i + 1;
            }
            let r = WireValue::List(items);
            proof {
                assert(ms.take(n as int) =~= ms);
            }
            r
        },
    }
}

fn entry_to_wire(e: &SequenceEntryOwned) -> (r: WireValue)
    ensures
        r@ == enc_entry(e@),
{
    match e {
        SequenceEntryOwned::Delay(d) => WireValue::Num(*d),
        SequenceEntryOwned::Actions(g) => group_to_wire(g),
    }
}

// ---------------------------------------------------------------------
// Executable decoding.
// ---------------------------------------------------------------------

fn field_lookup<'v>(fields: &'v Vec<(String, WireValue)>, key: &String) -> (r: Option<
    &'v WireValue,
>)
    ensures
        match r {
            Some(v) => lookup(obj_view(fields@), key@) == Some(wire_view(*v)),
            None => lookup(obj_view(fields@), key@) is None,
        },
{
    let ghost fs = obj_view(fields@);
    let n: usize = fields.len();
    let mut j: usize = 0;
    proof {
        lemma_obj_view(fields@);
    }
    while j < n
        invariant
            j <= n,
            n == fields.len(),
            fs == obj_view(fields@),
            fs.len() == n,
            lookup_from(fs, key@, 0) == lookup_from(fs, key@, j as int),
        decreases n - j,
    {
        proof {
            lemma_obj_view(fields@);
        }
        if fields[j].0 == *key {
            proof {
                assert(fs[j as int].0 == key@);
                assert(lookup_from(fs, key@, j as int) == Some(fs[j as int].1));
            }
            return Some(&fields[j].1);
        }
        proof {
            assert(fs[j as int].0 != key@);
            assert(lookup_from(fs, key@, j as int) == lookup_from(fs, key@, j as int + 1));
        }
        j = j + 1;
    }
    None
}

proof fn lemma_dec_actions_prefix_err(items: Seq<WireModel>, j: int, e: WireError)
    requires
        0 <= j <= items.len(),
        dec_actions(items.take(j)) == Err::<Seq<ActionModel>, WireError>(e),
    ensures
        dec_actions(items) == Err::<Seq<ActionModel>, WireError>(e),
    decreases items.len(),
{
    if j == items.len() {
        assert(items.take(j) =~= items);
    } else {
        assert(items.drop_last().take(j) =~= items.take(j));
        lemma_dec_actions_prefix_err(items.drop_last(), j, e);
    }
}

proof fn lemma_dec_entries_prefix_err(items: Seq<WireModel>, j: int, e: WireError)
    requires
        0 <= j <= items.len(),
        dec_entries(items.take(j)) == Err::<Seq<EntryModel>, WireError>(e),
    ensures
        dec_entries(items) == Err::<Seq<EntryModel>, WireError>(e),
    decreases items.len(),
{
    if j == items.len() {
        assert(items.take(j) =~= items);
    } else {
        assert(items.drop_last().take(j) =~= items.take(j));
        lemma_dec_entries_prefix_err(items.drop_last(), j, e);
    }
}

fn wire_to_action(w: &WireValue) -> (r: Result<SequenceActionOwned, WireError>)
    ensures
        match r {
            Ok(a) => dec_action(w@) == Ok::<ActionModel, WireError>(a@),
            Err(e) => dec_action(w@) == Err::<ActionModel, WireError>(e),
        },
{
    match w {
        WireValue::Object(fields) => {
            let kt = "i".to_owned();
            let oid: OID = match field_lookup(fields, &kt) {
                Some(WireValue::Target(o)) => oid_clone(o),
                Some(_) => {
                    return Err(WireError::BadShape);
                },
                None => {
                    return Err(WireError::BadShape);
                },
            };
            let kp = "params".to_owned();
            let params: Option<Params> = match field_lookup(fields, &kp) {
                None => None,
                Some(WireValue::Null) => None,
                Some(WireValue::Payload(p)) => Some(params_clone(p)),
                Some(_) => {
                    return Err(WireError::BadShape);
                },
            };
            let kw = "wait".to_owned();
            let wait: u64 = match field_lookup(fields, &kw) {
                Some(WireValue::Num(n)) => *n,
                Some(_) => {
                    return Err(WireError::BadDuration);
                },
                None => {
                    return Err(WireError::BadShape);
                },
            };
            Ok(SequenceActionOwned { oid, params, wait })
        },
        _ => Err(WireError::BadShape),
    }
}

fn wire_actions_list(items: &Vec<WireValue>) -> (r: Result<Vec<SequenceActionOwned>, WireError>)
    ensures
        match r {
            Ok(v) => dec_actions(list_view(items@)) == Ok::<Seq<ActionModel>, WireError>(
                v@.map_values(|a: SequenceActionOwned| a@),
            ),
            Err(e) => dec_actions(list_view(items@)) == Err::<Seq<ActionModel>, WireError>(e),
        },
{
    let ghost ws = list_view(items@);
    let mut out: Vec<SequenceActionOwned> = Vec::new();
    let n: usize = items.len();
    let mut i: usize = 0;
    proof {
        lemma_list_view(items@);
        assert(ws.take(0) =~= Seq::<WireModel>::empty());
        assert(out@.map_values(|a: SequenceActionOwned| a@) =~= Seq::<ActionModel>::empty());
        assert(dec_actions(ws.take(0)) == Ok::<Seq<ActionModel>, WireError>(
            out@.map_values(|a: SequenceActionOwned| a@),
        ));
    }
    while i < n
        invariant
            i <= n,
            n == items.len(),
            ws == list_view(items@),
            ws.len() == n,
            out@.len() == i,
            dec_actions(ws.take(i as int)) == Ok::<Seq<ActionModel>, WireError>(
                out@.map_values(|a: SequenceActionOwned| a@),
            ),
        decreases n - i,
    {
        proof {
            lemma_list_view(items@);
            assert(ws.take(i as int + 1).drop_last() =~= ws.take(i as int));
            assert(ws.take(i as int + 1).last() == ws[i as int]);
            assert(ws[i as int] == wire_view(items@[i as int]));
        }
        match wire_to_action(&items[i]) {
            Ok(a) => {
                let ghost prevout = out@;
                out.push(a);
                proof {
                    assert(out@.drop_last() =~= prevout);
                    assert(out@.map_values(|x: SequenceActionOwned| x@) =~= prevout.map_values(
                        |x: SequenceActionOwned| x@,
                    ).push(a@));
                    assert(dec_actions(ws.take(i as int + 1)) == Ok::<
                        Seq<ActionModel>,
                        WireError,
                    >(prevout.map_values(|x: SequenceActionOwned| x@).push(a@)));
                }
            },
            Err(e) => {
                proof {
                    assert(dec_actions(ws.take(i as int + 1)) == Err::<
                        Seq<ActionModel>,
                        WireError,
                    >(e));
                    lemma_dec_actions_prefix_err(ws, i as int + 1, e);
                }
                return Err(e);
            },
        }
        i = i + 1;
    }
    proof {
        assert(ws.take(n as int) =~= ws);
    }
    Ok(out)
}

fn wire_to_group(w: &WireValue) -> (r: Result<SequenceActionEntryOwned, WireError>)
    ensures
        match r {
            Ok(g) => dec_group(w@) == Ok::<GroupModel, WireError>(g@),
            Err(e) => dec_group(w@) == Err::<GroupModel, WireError>(e),
        },
{
    match w {
        WireValue::Object(_) => match wire_to_action(w) {
            Ok(a) => Ok(SequenceActionEntryOwned::Single(a)),
            Err(e) => Err(e),
        },
        WireValue::List(items) => match wire_actions_list(items) {
            Ok(v) => Ok(SequenceActionEntryOwned::Multi(v)),
            Err(e) => Err(e),
        },
        _ => Err(WireError::BadShape),
    }
}

fn wire_to_entry(w: &WireValue) -> (r: Result<SequenceEntryOwned, WireError>)
    ensures
        match r {
            Ok(x) => dec_entry(w@) == Ok::<EntryModel, WireError>(x@),
            Err(e) => dec_entry(w@) == Err::<EntryModel, WireError>(e),
        },
{
    match w {
        WireValue::Num(d) => Ok(SequenceEntryOwned::Delay(*d)),
        WireValue::List(_) => match wire_to_group(w) {
            Ok(g) => Ok(SequenceEntryOwned::Actions(g)),
            Err(e) => Err(e),
        },
        WireValue::Object(_) => match wire_to_group(w) {
            Ok(g) => Ok(SequenceEntryOwned::Actions(g)),
            Err(e) => Err(e),
        },
        _ => Err(WireError::BadShape),
    }
}

fn wire_entries_list(items: &Vec<WireValue>) -> (r: Result<Vec<SequenceEntryOwned>, WireError>)
    ensures
        match r {
            Ok(v) => dec_entries(list_view(items@)) == Ok::<Seq<EntryModel>, WireError>(
                v@.map_values(|x: SequenceEntryOwned| x@),
            ),
            Err(e) => dec_entries(list_view(items@)) == Err::<Seq<EntryModel>, WireError>(e),
        },
{
    let ghost ws = list_view(items@);
    let mut out: Vec<SequenceEntryOwned> = Vec::new();
    let n: usize = items.len();
    let mut i: usize = 0;
    proof {
        lemma_list_view(items@);
        assert(ws.take(0) =~= Seq::<WireModel>::empty());
        assert(out@.map_values(|x: SequenceEntryOwned| x@) =~= Seq::<EntryModel>::empty());
        assert(dec_entries(ws.take(0)) == Ok::<Seq<EntryModel>, WireError>(
            out@.map_values(|x: SequenceEntryOwned| x@),
        ));
    }
    while i < n
        invariant
            i <= n,
            n == items.len(),
            ws == list_view(items@),
            ws.len() == n,
            out@.len() == i,
            dec_entries(ws.take(i as int)) == Ok::<Seq<EntryModel>, WireError>(
                out@.map_values(|x: SequenceEntryOwned| x@),
            ),
        decreases n - i,
    {
        proof {
            lemma_list_view(items@);
            assert(ws.take(i as int + 1).drop_last() =~= ws.take(i as int));
            assert(ws.take(i as int + 1).last() == ws[i as int]);
            assert(ws[i as int] == wire_view(items@[i as int]));
        }
        match wire_to_entry(&items[i]) {
            Ok(x) => {
                let ghost prevout = out@;
                out.push(x);
                proof {
                    assert(out@.drop_last() =~= prevout);
                    assert(out@.map_values(|y: SequenceEntryOwned| y@) =~= prevout.map_values(
                        |y: SequenceEntryOwned| y@,
                    ).push(x@));
                    assert(dec_entries(ws.take(i as int + 1)) == Ok::<
                        Seq<EntryModel>,
                        WireError,
                    >(prevout.map_values(|y: SequenceEntryOwned| y@).push(x@)));
                }
            },
            Err(e) => {
                proof {
                    assert(dec_entries(ws.take(i as int + 1)) == Err::<
                        Seq<EntryModel>,
                        WireError,
                    >(e));
                    lemma_dec_entries_prefix_err(ws, i as int + 1, e);
                }
                return Err(e);
            },
        }
        i = i + 1;
    }
    proof {
        assert(ws.take(n as int) =~= ws);
    }
    Ok(out)
}

impl SequenceOwned {
    /// Encodes the plan into its wire shape. The encoding is exactly
    /// `enc_plan` of the plan's model, and decoding it yields the plan back:
    /// the round trip loses nothing.
    pub fn to_wire(&self) -> (r: WireValue)
        ensures
            r@ == enc_plan(self@),
            dec_plan(r@) == Ok::<PlanModel, WireError>(self@),
    {
        let id_text = uuid_format(&self.u);
        let ghost entry_models = self@.entries;
        let mut items: Vec<WireValue> = Vec::new();
        let n: usize = self.seq.len();
        let mut i: usize = 0;
        proof {
            assert(entry_models.take(0) =~= Seq::<EntryModel>::empty());
            assert(list_view(items@) =~= entry_models.take(0).map_values(
                |e: EntryModel| enc_entry(e),
            ));
        }
        while i < n
            invariant
                i <= n,
                n == self.seq.len(),
                entry_models == self@.entries,
                entry_models.len() == n,
                items@.len() == i,
                list_view(items@) == entry_models.take(i as int).map_values(
                    |e: EntryModel| enc_entry(e),
                ),
            decreases n - i,
        {
            let item = entry_to_wire(&self.seq[i]);
            let ghost prev = items@;
            items.push(item);
            proof {
                assert(items@.drop_last() =~= prev);
                assert(entry_models[i as int] == self.seq@[i as int]@);
                assert(entry_models.take(i as int + 1).map_values(
                    |e: EntryModel| enc_entry(e),
                ) =~= entry_models.take(i as int).map_values(|e: EntryModel| enc_entry(e)).push(
                    enc_entry(entry_models[i as int]),
                ));
                assert(list_view(items@) == entry_models.take(i as int + 1).map_values(
                    |e: EntryModel| enc_entry(e),
                ));
            }
            i = i + 1;
        }
        proof {
            assert(entry_models.take(n as int) =~= entry_models);
        }
        let abort_w: WireValue = match &self.on_abort {
            Some(g) => group_to_wire(g),
            None => WireValue::Null,
        };
        let mut fields: Vec<(String, WireValue)> = Vec::new();
        fields.push(("u".to_owned(), WireValue::Text(id_text)));
        fields.push(("seq".to_owned(), WireValue::List(items)));
        fields.push(("on_abort".to_owned(), abort_w));
        fields.push(("timeout".to_owned(), WireValue::Num(self.timeout)));
        let ghost fs = fields@;
        let r = WireValue::Object(fields);
        proof {
            lemma_obj_view(fs);
            let w = enc_plan(self@);
            let f = w->Object_0;
            assert(f.len() == 4);
            assert(obj_view(fs).len() == 4);
            assert(obj_view(fs)[0] == f[0]);
            assert(obj_view(fs)[1] == f[1]);
            assert(obj_view(fs)[2] == f[2]);
            assert(obj_view(fs)[3] == f[3]);
            assert(obj_view(fs) =~= f);
            assert(r@ == WireModel::Object(obj_view(fs)));
            assert(r@ =~~= enc_plan(self@));
            lemma_enc_plan_rt(self@);
        }
        r
    }

    /// Decodes a plan from its wire shape: exactly the spec-level decoding
    /// `dec_plan`, error for error.
    pub fn from_wire(w: &WireValue) -> (r: Result<SequenceOwned, WireError>)
        ensures
            match r {
                Ok(s) => dec_plan(w@) == Ok::<PlanModel, WireError>(s@),
                Err(e) => dec_plan(w@) == Err::<PlanModel, WireError>(e),
            },
    {
        match w {
            WireValue::Object(fields) => {
                let ku = "u".to_owned();
                let kalias = "uuid".to_owned();
                let idw: Option<&WireValue> = match field_lookup(fields, &ku) {
                    Some(v) => Some(v),
                    None => field_lookup(fields, &kalias),
                };
                let id: Uuid = match idw {
                    Some(WireValue::Text(s)) => match uuid_parse(s.as_str()) {
                        Some(u) => u,
                        None => {
                            return Err(WireError::BadIdentifier);
                        },
                    },
                    Some(_) => {
                        return Err(WireError::BadIdentifier);
                    },
                    None => {
                        return Err(WireError::BadShape);
                    },
                };
                let ks = "seq".to_owned();
                let entries: Vec<SequenceEntryOwned> = match field_lookup(fields, &ks) {
                    Some(WireValue::List(items)) => match wire_entries_list(items) {
                        Ok(v) => v,
                        Err(e) => {
                            return Err(e);
                        },
                    },
                    Some(_) => {
                        return Err(WireError::BadShape);
                    },
                    None => {
                        return Err(WireError::BadShape);
                    },
                };
                let ka = "on_abort".to_owned();
                let abort: Option<SequenceActionEntryOwned> = match field_lookup(fields, &ka) {
                    None => None,
                    Some(WireValue::Null) => None,
                    Some(gv) => match wire_to_group(gv) {
                        Ok(g) => Some(g),
                        Err(e) => {
                            return Err(e);
                        },
                    },
                };
                let kt = "timeout".to_owned();
                let timeout: u64 = match field_lookup(fields, &kt) {
                    Some(WireValue::Num(t)) => *t,
                    Some(_) => {
                        return Err(WireError::BadDuration);
                    },
                    None => {
                        return Err(WireError::BadShape);
                    },
                };
                let s = SequenceOwned { u: id, seq: entries, on_abort: abort, timeout };
                Ok(s)
            },
            _ => Err(WireError::BadShape),
        }
    }
}

fn ref_action_to_wire<'a>(a: &SequenceAction<'a>) -> (r: WireValue)
    ensures
        r@ == enc_action(a@),
{
    action_parts_to_wire(a.oid, &a.params, a.wait)
}

fn ref_group_to_wire<'a>(g: &SequenceActionEntry<'a>) -> (r: WireValue)
    ensures
        r@ == enc_group(g@),
{
    match g {
        SequenceActionEntry::Single(a) => ref_action_to_wire(a),
        SequenceActionEntry::Multi(acts) => {
            let ghost ms = acts@.map_values(|a: SequenceAction<'a>| a@);
            let mut items: Vec<WireValue> = Vec::new();
            let n: usize = acts.len();
            let mut i: usize = 0;
            proof {
                assert(ms.take(0) =~= Seq::<ActionModel>::empty());
                assert(list_view(items@) =~= ms.take(0).map_values(
                    |m: ActionModel| enc_action(m),
                ));
            }
            while i < n
                invariant
                    i <= n,
                    n == acts.len(),
                    ms == acts@.map_values(|a: SequenceAction<'a>| a@),
                    ms.len() == n,
                    items@.len() == i,
                    list_view(items@) == ms.take(i as int).map_values(
                        |m: ActionModel| enc_action(m),
                    ),
                decreases n - i,
            {
                let item = ref_action_to_wire(&acts[i]);
                let ghost prev = items@;
                items.push(item);
                proof {
                    assert(items@.drop_last() =~= prev);
                    assert(ms[i as int] == acts@[i as int]@);
                    assert(ms.take(i as int + 1).map_values(|m: ActionModel| enc_action(m)) =~= ms
                        .take(i as int).map_values(|m: ActionModel| enc_action(m)).push(
                        enc_action(ms[i as int]),
                    ));
                    assert(list_view(items@) == ms.take(i as int + 1).map_values(
                        |m: ActionModel| enc_action(m),
                    ));
                }
                i = i + 1;
            }
            let r = WireValue::List(items);
            proof {
                assert(ms.take(n as int) =~= ms);
            }
            r
        },
    }
}

fn ref_entry_to_wire<'a>(e: &SequenceEntry<'a>) -> (r: WireValue)
    ensures
        r@ == enc_entry(e@),
{
    match e {
        SequenceEntry::Delay(d) => WireValue::Num(*d),
        SequenceEntry::Actions(g) => ref_group_to_wire(g),
    }
}

impl<'a> Sequence<'a> {
    /// Encodes the plan into its wire shape. The encoding is exactly
    /// `enc_plan` of the plan's model, and the owned decoder reads it back
    /// as an owned plan with the same model: the round trip across the two
    /// ownership profiles loses nothing.
    pub fn to_wire(&self) -> (r: WireValue)
        ensures
            r@ == enc_plan(self@),
            dec_plan(r@) == Ok::<PlanModel, WireError>(self@),
    {
        let id_text = uuid_format(&self.u);
        let ghost entry_models = self@.entries;
        let mut items: Vec<WireValue> = Vec::new();
        let n: usize = self.seq.len();
        let mut i: usize = 0;
        proof {
            assert(entry_models.take(0) =~= Seq::<EntryModel>::empty());
            assert(list_view(items@) =~= entry_models.take(0).map_values(
                |e: EntryModel| enc_entry(e),
            ));
        }
        while i < n
            invariant
                i <= n,
                n == self.seq.len(),
                entry_models == self@.entries,
                entry_models.len() == n,
                items@.len() == i,
                list_view(items@) == entry_models.take(i as int).map_values(
                    |e: EntryModel| enc_entry(e),
                ),
            decreases n - i,
        {
            let item = ref_entry_to_wire(&self.seq[i]);
            let ghost prev = items@;
            items.push(item);
            proof {
                assert(items@.drop_last() =~= prev);
                assert(entry_models[i as int] == self.seq@[i as int]@);
                assert(entry_models.take(i as int + 1).map_values(
                    |e: EntryModel| enc_entry(e),
                ) =~= entry_models.take(i as int).map_values(|e: EntryModel| enc_entry(e)).push(
                    enc_entry(entry_models[i as int]),
                ));
                assert(list_view(items@) == entry_models.take(i as int + 1).map_values(
                    |e: EntryModel| enc_entry(e),
                ));
            }
            i = i + 1;
        }
        proof {
            assert(entry_models.take(n as int) =~= entry_models);
        }
        let abort_w: WireValue = match &self.on_abort {
            Some(g) => ref_group_to_wire(g),
            None => WireValue::Null,
        };
        let mut fields: Vec<(String, WireValue)> = Vec::new();
        fields.push(("u".to_owned(), WireValue::Text(id_text)));
        fields.push(("seq".to_owned(), WireValue::List(items)));
        fields.push(("on_abort".to_owned(), abort_w));
        fields.push(("timeout".to_owned(), WireValue::Num(self.timeout)));
        let ghost fs = fields@;
        let r = WireValue::Object(fields);
        proof {
            lemma_obj_view(fs);
            let w = enc_plan(self@);
            let f = w->Object_0;
            assert(f.len() == 4);
            assert(obj_view(fs).len() == 4);
            assert(obj_view(fs)[0] == f[0]);
            assert(obj_view(fs)[1] == f[1]);
            assert(obj_view(fs)[2] == f[2]);
            assert(obj_view(fs)[3] == f[3]);
            assert(obj_view(fs) =~= f);
            assert(r@ == WireModel::Object(obj_view(fs)));
            assert(r@ =~~= enc_plan(self@));
            lemma_enc_plan_rt(self@);
        }
        r
    }
}

} // verus!
