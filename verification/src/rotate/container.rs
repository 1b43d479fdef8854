use vstd::prelude::*;

use crate::json::json_fields_of;
use crate::json::json_object_fields;
use crate::rotate::RotateError;

verus! {

/// Spec-level shape of a secret container: the typed fields and the
/// unrecognised fields, each a sequence of (name, canonical value text).
#[verifier::ext_equal]
pub struct ContainerView {
    /// Fields whose names the typed shape lists.
    pub data: Seq<(Seq<char>, Seq<char>)>,
    /// All other fields of the wire payload.
    pub o: Seq<(Seq<char>, Seq<char>)>,
}

/// Structural merge of a caller-defined typed payload and every other field
/// of the wire payload. The typed shape is the list of field names the
/// caller models; fields outside it are preserved verbatim so that
/// overwriting the secret cannot discard store-managed metadata.
#[derive(Debug, Clone)]
pub struct SecretContainer {
    /// Fields of the typed shape: name and canonical JSON text of the value.
    pub data: Vec<(String, String)>,
    /// Fields the typed shape does not list.
    pub o: Vec<(String, String)>,
}

impl View for SecretContainer {
    type V = ContainerView;

    open spec fn view(&self) -> ContainerView {
        ContainerView { data: self.data.deep_view(), o: self.o.deep_view() }
    }
}

/// The fields of `fields` whose name the typed shape `known` lists, in order.
pub open spec fn split_known(
    known: Seq<Seq<char>>,
    fields: Seq<(Seq<char>, Seq<char>)>,
) -> Seq<(Seq<char>, Seq<char>)>
    decreases fields.len(),
{
    if fields.len() == 0 {
        Seq::empty()
    } else {
        let rest = split_known(known, fields.drop_last());
        if known.contains(fields.last().0) {
            rest.push(fields.last())
        } else {
            rest
        }
    }
}

/// The fields of `fields` whose name the typed shape does not list, in order.
pub open spec fn split_unknown(
    known: Seq<Seq<char>>,
    fields: Seq<(Seq<char>, Seq<char>)>,
) -> Seq<(Seq<char>, Seq<char>)>
    decreases fields.len(),
{
    if fields.len() == 0 {
        Seq::empty()
    } else {
        let rest = split_unknown(known, fields.drop_last());
        if !known.contains(fields.last().0) {
            rest.push(fields.last())
        } else {
            rest
        }
    }
}

impl ContainerView {
    /// Typed fields all belong to the typed shape; unrecognised fields
    /// never do — no field can appear in both parts.
    pub open spec fn wf(self, known: Seq<Seq<char>>) -> bool {
        &&& (forall|i: int| 0 <= i < self.data.len() ==> known.contains(#[trigger] self.data[i].0))
        &&& (forall|i: int| 0 <= i < self.o.len() ==> !known.contains(#[trigger] self.o[i].0))
    }

    /// The union emitted on serialisation: typed fields first, then the rest.
    pub open spec fn merged(self) -> Seq<(Seq<char>, Seq<char>)> {
        self.data + self.o
    }

    /// The container that parsing `fields` against the typed shape yields.
    pub open spec fn from_fields(
        known: Seq<Seq<char>>,
        fields: Seq<(Seq<char>, Seq<char>)>,
    ) -> ContainerView {
        ContainerView {
            data: split_known(known, fields),
            o: split_unknown(known, fields),
        }
    }
}

/// True when the typed shape lists `key`.
fn contains_key(known: &Vec<String>, key: &String) -> (r: bool)
    ensures
        r == known.deep_view().contains(key@),
{
    let n = known.len();
    let mut i: usize = 0;
    while i < n
        invariant
            n == known.len(),
            i <= n,
            forall|k: int| 0 <= k < i ==> known.deep_view()[k] != key@,
        decreases n - i,
    {
        if known[i] == *key {
            proof {
                assert(known.deep_view()[i as int] == key@);
            }
            return true;
        }
        i += 1;
    }
    proof {
        assert(!known.deep_view().contains(key@));
    }
    false
}

proof fn lemma_split_wf(known: Seq<Seq<char>>, fields: Seq<(Seq<char>, Seq<char>)>)
    ensures
        ContainerView::from_fields(known, fields).wf(known),
    decreases fields.len(),
{
    if fields.len() > 0 {
        lemma_split_wf(known, fields.drop_last());
        let rest = ContainerView::from_fields(known, fields.drop_last());
        let d = split_known(known, fields);
        let u = split_unknown(known, fields);
        assert forall|i: int| 0 <= i < d.len() implies known.contains(#[trigger] d[i].0) by {
            if i < rest.data.len() {
                assert(d[i] == rest.data[i]);
            } else {
                assert(d[i] == fields.last());
            }
        }
        assert forall|i: int| 0 <= i < u.len() implies !known.contains(#[trigger] u[i].0) by {
            if i < rest.o.len() {
                assert(u[i] == rest.o[i]);
            } else {
                assert(u[i] == fields.last());
            }
        }
    }
}

/// Splits a wire payload's fields into the typed shape given by `known` and
/// the unrecognised remainder, preserving field order within each part.
pub fn parse_fields(known: &Vec<String>, fields: &Vec<(String, String)>) -> (c: SecretContainer)
    ensures
        c@ == ContainerView::from_fields(known.deep_view(), fields.deep_view()),
        c@.wf(known.deep_view()),
{
    let n = fields.len();
    let mut data: Vec<(String, String)> = Vec::new();
    let mut o: Vec<(String, String)> = Vec::new();
    let mut i: usize = 0;
    while i < n
        invariant
            n == fields.len(),
            i <= n,
            data.deep_view() == split_known(known.deep_view(), fields.deep_view().take(i as int)),
            o.deep_view() == split_unknown(known.deep_view(), fields.deep_view().take(i as int)),
        decreases n - i,
    {
        let name = fields[i].0.clone();
        let value = fields[i].1.clone();
        let is_known = contains_key(known, &name);
        proof {
            assert(fields.deep_view()[i as int] == (name@, value@));
            assert(fields.deep_view().take(i + 1).drop_last() =~= fields.deep_view().take(
                i as int,
            ));
            assert(fields.deep_view().take(i + 1).last() == fields.deep_view()[i as int]);
        }
        if is_known {
            data.push((name, value));
        } else {
            o.push((name, value));
        }
        proof {
            assert(data.deep_view() =~= split_known(
                known.deep_view(),
                fields.deep_view().take(i + 1),
            ));
            assert(o.deep_view() =~= split_unknown(
                known.deep_view(),
                fields.deep_view().take(i + 1),
            ));
        }
        i += 1;
    }
    proof {
        assert(fields.deep_view().take(n as int) =~= fields.deep_view());
        lemma_split_wf(known.deep_view(), fields.deep_view());
    }
    SecretContainer { data, o }
}

impl SecretContainer {
    /// Emits the union of typed and unrecognised fields, typed fields first;
    /// nothing is dropped and nothing is added.
    pub fn serialize_fields(&self) -> (r: Vec<(String, String)>)
        ensures
            r.deep_view() == self@.merged(),
    {
        let mut r: Vec<(String, String)> = Vec::new();
        let n = self.data.len();
        let mut i: usize = 0;
        while i < n
            invariant
                n == self.data.len(),
                i <= n,
                r@.len() == i,
                forall|k: int|
                    0 <= k < i ==> r.deep_view()[k] == #[trigger] self.data.deep_view()[k],
            decreases n - i,
        {
            let name = self.data[i].0.clone();
            let value = self.data[i].1.clone();
            proof {
                assert(self.data.deep_view()[i as int] == (name@, value@));
            }
            r.push((name, value));
            proof {
                assert(r.deep_view()[i as int] == self.data.deep_view()[i as int]);
            }
            i += 1;
        }
        let m = self.o.len();
        let mut j: usize = 0;
        while j < m
            invariant
                n == self.data.len(),
                m == self.o.len(),
                j <= m,
                r@.len() == n + j,
                forall|k: int|
                    0 <= k < n ==> r.deep_view()[k] == #[trigger] self.data.deep_view()[k],
                forall|k: int|
                    0 <= k < j ==> r.deep_view()[n + k] == #[trigger] self.o.deep_view()[k],
            decreases m - j,
        {
            let name = self.o[j].0.clone();
            let value = self.o[j].1.clone();
            proof {
                assert(self.o.deep_view()[j as int] == (name@, value@));
            }
            r.push((name, value));
            proof {
                assert(r.deep_view()[(n + j) as int] == self.o.deep_view()[j as int]);
            }
            j += 1;
        }
        proof {
            assert(r.deep_view().len() == n + m);
            assert(self.data.deep_view().len() == n);
            assert(self.o.deep_view().len() == m);
            assert(r.deep_view() =~~= self@.merged());
        }
        r
    }

    /// Deep copy with a verified meaning: the copy denotes the same container.
    pub fn duplicate(&self) -> (r: SecretContainer)
        ensures
            r@ == self@,
    {
        let data = clone_fields(&self.data);
        let o = clone_fields(&self.o);
        let r = SecretContainer { data, o };
        proof {
            assert(r@ =~= self@);
        }
        r
    }
}

/// Copies a field list; the copy denotes the same fields.
pub(crate) fn clone_fields(fields: &Vec<(String, String)>) -> (r: Vec<(String, String)>)
    ensures
        r.deep_view() == fields.deep_view(),
{
    let n = fields.len();
    let mut r: Vec<(String, String)> = Vec::new();
    let mut i: usize = 0;
    while i < n
        invariant
            n == fields.len(),
            i <= n,
            r@.len() == i,
            forall|k: int| 0 <= k < i ==> r.deep_view()[k] == #[trigger] fields.deep_view()[k],
        decreases n - i,
    {
        let name = fields[i].0.clone();
        let value = fields[i].1.clone();
        proof {
            assert(fields.deep_view()[i as int] == (name@, value@));
        }
        r.push((name, value));
        proof {
            assert(r.deep_view()[i as int] == fields.deep_view()[i as int]);
        }
        i += 1;
    }
    proof {
        assert(r.deep_view().len() == n);
        assert(fields.deep_view().len() == n);
        assert(r.deep_view() =~~= fields.deep_view());
    }
    r
}

/// Parses a wire payload into the typed fields that `known` lists plus all
/// other fields. Fails exactly when the payload is not a JSON object.
pub fn parse_container(known: &Vec<String>, payload: &str) -> (r: Result<
    SecretContainer,
    RotateError,
>)
    ensures
        match r {
            Ok(c) => json_fields_of(payload@) matches Some(fields) && c@
                == ContainerView::from_fields(known.deep_view(), fields) && c@.wf(
                known.deep_view(),
            ),
            Err(e) => json_fields_of(payload@) is None && e == RotateError::PayloadNotObject,
        },
{
    match json_object_fields(payload) {
        Some(fields) => Ok(parse_fields(known, &fields)),
        None => Err(RotateError::PayloadNotObject),
    }
}

proof fn lemma_split_distributes(
    known: Seq<Seq<char>>,
    a: Seq<(Seq<char>, Seq<char>)>,
    b: Seq<(Seq<char>, Seq<char>)>,
)
    ensures
        split_known(known, a + b) == split_known(known, a) + split_known(known, b),
        split_unknown(known, a + b) == split_unknown(known, a) + split_unknown(known, b),
    decreases b.len(),
{
    if b.len() == 0 {
        assert(a + b =~= a);
        assert(split_known(known, a) + split_known(known, b) =~= split_known(known, a));
        assert(split_unknown(known, a) + split_unknown(known, b) =~= split_unknown(known, a));
    } else {
        lemma_split_distributes(known, a, b.drop_last());
        assert((a + b).drop_last() =~= a + b.drop_last());
        assert((a + b).last() == b.last());
        if known.contains(b.last().0) {
            assert(split_known(known, a) + split_known(known, b) =~= (split_known(known, a)
                + split_known(known, b.drop_last())).push(b.last()));
        } else {
            assert(split_unknown(known, a) + split_unknown(known, b) =~= (split_unknown(known, a)
                + split_unknown(known, b.drop_last())).push(b.last()));
        }
    }
}

proof fn lemma_split_all_known(known: Seq<Seq<char>>, fields: Seq<(Seq<char>, Seq<char>)>)
    requires
        forall|i: int| 0 <= i < fields.len() ==> known.contains(#[trigger] fields[i].0),
    ensures
        split_known(known, fields) == fields,
        split_unknown(known, fields) == Seq::<(Seq<char>, Seq<char>)>::empty(),
    decreases fields.len(),
{
    if fields.len() > 0 {
        lemma_split_all_known(known, fields.drop_last());
        assert(split_known(known, fields) =~= fields);
    }
}

proof fn lemma_split_all_unknown(known: Seq<Seq<char>>, fields: Seq<(Seq<char>, Seq<char>)>)
    requires
        forall|i: int| 0 <= i < fields.len() ==> !known.contains(#[trigger] fields[i].0),
    ensures
        split_unknown(known, fields) == fields,
        split_known(known, fields) == Seq::<(Seq<char>, Seq<char>)>::empty(),
    decreases fields.len(),
{
    if fields.len() > 0 {
        lemma_split_all_unknown(known, fields.drop_last());
        assert(split_unknown(known, fields) =~= fields);
    }
}

/// Round-trip fidelity: parsing the serialised union of a well-formed
/// container against the same typed shape yields the container back —
/// the same typed fields and the same unrecognised fields, in particular
/// exactly as many unrecognised fields as before.
pub proof fn lemma_container_round_trip(c: ContainerView, known: Seq<Seq<char>>)
    requires
        c.wf(known),
    ensures
        ContainerView::from_fields(known, c.merged()) == c,
        ContainerView::from_fields(known, c.merged()).o.len() == c.o.len(),
{
    lemma_split_distributes(known, c.data, c.o);
    lemma_split_all_known(known, c.data);
    lemma_split_all_unknown(known, c.o);
    assert(split_known(known, c.merged()) =~= c.data);
    assert(split_unknown(known, c.merged()) =~= c.o);
    assert(ContainerView::from_fields(known, c.merged()) =~= c);
}

/// Serialisation is injective on well-formed containers of one typed shape:
/// two containers with the same emitted union are the same container. So a
/// written payload differs from a stored one whenever the containers differ.
pub proof fn lemma_serialize_injective(c1: ContainerView, c2: ContainerView, known: Seq<Seq<char>>)
    requires
        c1.wf(known),
        c2.wf(known),
        c1.merged() == c2.merged(),
    ensures
        c1 == c2,
{
    lemma_container_round_trip(c1, known);
    lemma_container_round_trip(c2, known);
}

} // verus!

