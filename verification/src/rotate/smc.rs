use vstd::prelude::*;

use crate::json::json_fields_of;
use crate::json::utf8_of;
use crate::json::utf8_string;
use crate::rotate::container::clone_fields;
use crate::rotate::container::parse_container;
use crate::rotate::container::parse_fields;
use crate::rotate::container::ContainerView;
use crate::rotate::container::SecretContainer;
use crate::rotate::RotateError;

verus! {

/// Secret record produced by reads from the store; never hand-constructed.
#[derive(Debug, Clone)]
pub struct Secret {
    /// Arn of the secret.
    pub arn: String,
    /// Opaque version token the store assigned to this version.
    pub version_id: String,
    /// The parsed secret container.
    pub inner: SecretContainer,
}

/// Spec-level shape of one stored version of the secret.
#[verifier::ext_equal]
pub struct SecretVersionView {
    /// The opaque version token.
    pub version_id: Seq<char>,
    /// The payload, as the fields of its JSON object.
    pub fields: Seq<(Seq<char>, Seq<char>)>,
    /// Whether the version carries the current label.
    pub current: bool,
    /// Whether the version carries the pending label.
    pub pending: bool,
}

/// One version of the secret as the store keeps it.
#[derive(Debug, Clone)]
pub struct SecretVersion {
    /// The opaque version token.
    pub version_id: String,
    /// The payload, as the fields of its JSON object.
    pub fields: Vec<(String, String)>,
    /// Whether the version carries the current label.
    pub current: bool,
    /// Whether the version carries the pending label.
    pub pending: bool,
}

impl View for SecretVersion {
    type V = SecretVersionView;

    open spec fn view(&self) -> SecretVersionView {
        SecretVersionView {
            version_id: self.version_id@,
            fields: self.fields.deep_view(),
            current: self.current,
            pending: self.pending,
        }
    }
}

impl DeepView for SecretVersion {
    type V = SecretVersionView;

    open spec fn deep_view(&self) -> SecretVersionView {
        self.view()
    }
}

/// Spec-level shape of the store's state for one secret.
#[verifier::ext_equal]
pub struct SmcView {
    /// Identifier under which the secret is addressed.
    pub secret_id: Seq<char>,
    /// Arn under which the secret is also addressed.
    pub arn: Seq<char>,
    /// Every version the store keeps, with its labels.
    pub versions: Seq<SecretVersionView>,
}

impl SmcView {
    /// Version ids name versions uniquely, and at most one version carries
    /// each of the two labels.
    pub open spec fn wf(self) -> bool {
        &&& (forall|i: int, j: int|
            #![trigger self.versions[i], self.versions[j]]
            0 <= i < self.versions.len() && 0 <= j < self.versions.len() && i != j
                ==> self.versions[i].version_id != self.versions[j].version_id)
        &&& (forall|i: int, j: int|
            #![trigger self.versions[i], self.versions[j]]
            0 <= i < self.versions.len() && 0 <= j < self.versions.len()
                && self.versions[i].current && self.versions[j].current ==> i == j)
        &&& (forall|i: int, j: int|
            #![trigger self.versions[i], self.versions[j]]
            0 <= i < self.versions.len() && 0 <= j < self.versions.len()
                && self.versions[i].pending && self.versions[j].pending ==> i == j)
    }

    /// True when `name` addresses this secret, by id or by arn.
    pub open spec fn named(self, name: Seq<char>) -> bool {
        name == self.secret_id || name == self.arn
    }

    /// True when some version carries the current label.
    pub open spec fn has_current(self) -> bool {
        exists|i: int| 0 <= i < self.versions.len() && (#[trigger] self.versions[i]).current
    }

    /// The index of the version carrying the current label.
    pub open spec fn current_idx(self) -> int {
        choose|i: int| 0 <= i < self.versions.len() && (#[trigger] self.versions[i]).current
    }

    /// The version carrying the current label, if any.
    pub open spec fn spec_current(self) -> Option<SecretVersionView> {
        if self.has_current() {
            Some(self.versions[self.current_idx()])
        } else {
            None
        }
    }

    /// True when some version carries the pending label.
    pub open spec fn has_pending(self) -> bool {
        exists|i: int| 0 <= i < self.versions.len() && (#[trigger] self.versions[i]).pending
    }

    /// The index of the version carrying the pending label.
    pub open spec fn pending_idx(self) -> int {
        choose|i: int| 0 <= i < self.versions.len() && (#[trigger] self.versions[i]).pending
    }

    /// The version carrying the pending label, if any.
    pub open spec fn spec_pending(self) -> Option<SecretVersionView> {
        if self.has_pending() {
            Some(self.versions[self.pending_idx()])
        } else {
            None
        }
    }

    /// True when some version has the given id.
    pub open spec fn has_version(self, id: Seq<char>) -> bool {
        exists|i: int|
            0 <= i < self.versions.len() && (#[trigger] self.versions[i]).version_id == id
    }

    /// The index of the version with the given id.
    pub open spec fn version_idx(self, id: Seq<char>) -> int {
        choose|i: int|
            0 <= i < self.versions.len() && (#[trigger] self.versions[i]).version_id == id
    }
}

/// The record a fetch of `stage` hands back, by the store's contract: the
/// version carrying the label, or the error naming what was missing.
pub open spec fn spec_get(s: SmcView, name: Seq<char>, stage: Seq<char>) -> Result<
    SecretVersionView,
    RotateError,
> {
    if !s.named(name) {
        Err(RotateError::UnknownSecret)
    } else if stage == "AWSCURRENT"@ {
        match s.spec_current() {
            Some(v) => Ok(v),
            None => Err(RotateError::NoVersionForStage),
        }
    } else if stage == "AWSPENDING"@ {
        match s.spec_pending() {
            Some(v) => Ok(v),
            None => Err(RotateError::NoVersionForStage),
        }
    } else {
        Err(RotateError::UnknownStage)
    }
}

/// All pending labels cleared except at index `t`; a `t` outside the
/// sequence clears every pending label.
pub open spec fn move_pending(vs: Seq<SecretVersionView>, t: int) -> Seq<SecretVersionView> {
    Seq::new(vs.len(), |i: int| SecretVersionView { pending: i == t, ..vs[i] })
}

/// The current label placed on exactly the version named `to_id`.
pub open spec fn move_current(vs: Seq<SecretVersionView>, to_id: Seq<char>) -> Seq<
    SecretVersionView,
> {
    Seq::new(vs.len(), |i: int| SecretVersionView { current: vs[i].version_id == to_id, ..vs[i] })
}

/// What writing a new pending version does, by the store's contract: the
/// idempotency token becomes the new version's id; a token naming an
/// existing version is deduplicated when the payload is the same and
/// refused otherwise; the pending label moves to the written version.
pub open spec fn spec_put(
    s: SmcView,
    name: Seq<char>,
    token: Seq<char>,
    payload: Seq<(Seq<char>, Seq<char>)>,
) -> Result<SmcView, RotateError> {
    if !s.named(name) {
        Err(RotateError::UnknownSecret)
    } else if s.has_version(token) {
        if s.versions[s.version_idx(token)].fields == payload {
            Ok(SmcView { versions: move_pending(s.versions, s.version_idx(token)), ..s })
        } else {
            Err(RotateError::TokenReused)
        }
    } else {
        Ok(
            SmcView {
                versions: move_pending(s.versions, s.versions.len() as int).push(
                    SecretVersionView {
                        version_id: token,
                        fields: payload,
                        current: false,
                        pending: true,
                    },
                ),
                ..s
            },
        )
    }
}

/// What moving the current label does, by the store's contract: the version
/// named `to_id` gains the label, the version named `from_id` — which must
/// carry it — loses it; ids, payloads and pending labels stay untouched.
pub open spec fn spec_promote(
    s: SmcView,
    arn: Seq<char>,
    from_id: Seq<char>,
    to_id: Seq<char>,
) -> Result<SmcView, RotateError> {
    if !s.named(arn) {
        Err(RotateError::UnknownSecret)
    } else if !s.has_version(from_id) || !s.has_version(to_id) {
        Err(RotateError::MissingVersion)
    } else if !s.versions[s.version_idx(from_id)].current {
        Err(RotateError::StageNotOnVersion)
    } else {
        Ok(SmcView { versions: move_current(s.versions, to_id), ..s })
    }
}

/// True when the two strings hold the same characters.
pub(crate) fn str_eq(a: &str, b: &str) -> (r: bool)
    ensures
        r == (a@ == b@),
{
    let sa = a.to_owned();
    let sb = b.to_owned();
    sa == sb
}

fn fields_eq(a: &Vec<(String, String)>, b: &Vec<(String, String)>) -> (r: bool)
    ensures
        r == (a.deep_view() == b.deep_view()),
{
    let n = a.len();
    if n != b.len() {
        proof {
            assert(a.deep_view().len() != b.deep_view().len());
        }
        return false;
    }
    let mut i: usize = 0;
    while i < n
        invariant
            n == a.len(),
            n == b.len(),
            i <= n,
            forall|k: int| 0 <= k < i ==> #[trigger] a.deep_view()[k] == b.deep_view()[k],
        decreases n - i,
    {
        let names_eq = str_eq(a[i].0.as_str(), b[i].0.as_str());
        let values_eq = str_eq(a[i].1.as_str(), b[i].1.as_str());
        if !names_eq || !values_eq {
            proof {
                assert(a.deep_view()[i as int] == (a@[i as int].0@, a@[i as int].1@));
                assert(b.deep_view()[i as int] == (b@[i as int].0@, b@[i as int].1@));
                assert(a.deep_view()[i as int] != b.deep_view()[i as int]);
            }
            return false;
        }
        proof {
            assert(a.deep_view()[i as int] == (a@[i as int].0@, a@[i as int].1@));
            assert(b.deep_view()[i as int] == (b@[i as int].0@, b@[i as int].1@));
        }
        i += 1;
    }
    proof {
        assert(a.deep_view().len() == n);
        assert(b.deep_view().len() == n);
        assert(a.deep_view() =~~= b.deep_view());
    }
    true
}

/// Verified model of the key-versioned secret store for one secret: its
/// versions and the two well-known stage labels. A version moves between
/// labels; it is never copied.
pub struct Smc {
    /// Identifier under which the secret is addressed.
    pub secret_id: String,
    /// Arn under which the secret is also addressed.
    pub arn: String,
    /// Every version the store keeps.
    pub versions: Vec<SecretVersion>,
}

impl View for Smc {
    type V = SmcView;

    open spec fn view(&self) -> SmcView {
        SmcView {
            secret_id: self.secret_id@,
            arn: self.arn@,
            versions: self.versions.deep_view(),
        }
    }
}

impl Smc {
    /// The store's invariant.
    pub open spec fn wf(self) -> bool {
        self@.wf()
    }

    /// A store holding the named secret with no versions yet.
    pub fn new(secret_id: String, arn: String) -> (r: Smc)
        ensures
            r@.secret_id == secret_id@,
            r@.arn == arn@,
            r@.versions.len() == 0,
            r.wf(),
    {
        let r = Smc { secret_id, arn, versions: Vec::new() };
        proof {
            assert(r@.versions.len() == 0);
        }
        r
    }

    /// Seeds the store with its first version, carrying the current label;
    /// the version id is chosen by the caller, the payload is the emitted
    /// union of `value`'s fields.
    pub fn install_current(&mut self, version_id: String, value: &SecretContainer)
        requires
            old(self)@.versions.len() == 0,
        ensures
            final(self)@.secret_id == old(self)@.secret_id,
            final(self)@.arn == old(self)@.arn,
            final(self)@.versions.len() == 1,
            final(self)@.versions[0] == (SecretVersionView {
                version_id: version_id@,
                fields: value@.merged(),
                current: true,
                pending: false,
            }),
            final(self).wf(),
    {
        let fields = value.serialize_fields();
        self.versions.push(SecretVersion { version_id, fields, current: true, pending: false });
        proof {
            assert(self.versions.deep_view().len() == 1);
            assert(self.versions.deep_view()[0] == self.versions@[0]@);
        }
    }

    fn find_current(&self) -> (r: Option<usize>)
        requires
            self.wf(),
        ensures
            match r {
                Some(i) => self@.spec_current() == Some(self@.versions[i as int]) && i
                    < self@.versions.len(),
                None => self@.spec_current() is None,
            },
    {
        let n = self.versions.len();
        let mut i: usize = 0;
        while i < n
            invariant
                self.wf(),
                n == self.versions.len(),
                i <= n,
                forall|k: int| 0 <= k < i ==> !(#[trigger] self@.versions[k]).current,
            decreases n - i,
        {
            if self.versions[i].current {
                proof {
                    assert(self@.versions[i as int].current);
                    assert(self@.has_current());
                    let c = self@.current_idx();
                    assert(0 <= c < self@.versions.len() && self@.versions[c].current);
                    assert(c == i);
                }
                return Some(i);
            }
            proof {
                assert(!self@.versions[i as int].current);
            }
            i += 1;
        }
        proof {
            assert(!self@.has_current());
        }
        None
    }

    fn find_pending(&self) -> (r: Option<usize>)
        requires
            self.wf(),
        ensures
            match r {
                Some(i) => self@.spec_pending() == Some(self@.versions[i as int]) && i
                    < self@.versions.len(),
                None => self@.spec_pending() is None,
            },
    {
        let n = self.versions.len();
        let mut i: usize = 0;
        while i < n
            invariant
                self.wf(),
                n == self.versions.len(),
                i <= n,
                forall|k: int| 0 <= k < i ==> !(#[trigger] self@.versions[k]).pending,
            decreases n - i,
        {
            if self.versions[i].pending {
                proof {
                    assert(self@.versions[i as int].pending);
                    assert(self@.has_pending());
                    let c = self@.pending_idx();
                    assert(0 <= c < self@.versions.len() && self@.versions[c].pending);
                    assert(c == i);
                }
                return Some(i);
            }
            proof {
                assert(!self@.versions[i as int].pending);
            }
            i += 1;
        }
        proof {
            assert(!self@.has_pending());
        }
        None
    }

    fn find_version(&self, id: &str) -> (r: Option<usize>)
        requires
            self.wf(),
        ensures
            match r {
                Some(i) => i < self@.versions.len() && self@.versions[i as int].version_id == id@
                    && self@.has_version(id@) && self@.version_idx(id@) == i,
                None => !self@.has_version(id@),
            },
    {
        let n = self.versions.len();
        let mut i: usize = 0;
        while i < n
            invariant
                self.wf(),
                n == self.versions.len(),
                i <= n,
                forall|k: int| 0 <= k < i ==> (#[trigger] self@.versions[k]).version_id != id@,
            decreases n - i,
        {
            if str_eq(self.versions[i].version_id.as_str(), id) {
                proof {
                    assert(self@.versions[i as int].version_id == id@);
                    assert(self@.has_version(id@));
                    let c = self@.version_idx(id@);
                    assert(0 <= c < self@.versions.len() && self@.versions[c].version_id == id@);
                    assert(c == i);
                }
                return Some(i);
            }
            proof {
                assert(self@.versions[i as int].version_id != id@);
            }
            i += 1;
        }
        proof {
            assert(!self@.has_version(id@));
        }
        None
    }

    fn name_matches(&self, name: &str) -> (r: bool)
        ensures
            r == self@.named(name@),
    {
        let by_id = str_eq(name, self.secret_id.as_str());
        let by_arn = str_eq(name, self.arn.as_str());
        by_id || by_arn
    }

    fn secret_at(&self, i: usize, known: &Vec<String>) -> (sec: Secret)
        requires
            i < self@.versions.len(),
        ensures
            sec.arn@ == self@.arn,
            sec.version_id@ == self@.versions[i as int].version_id,
            sec.inner@ == ContainerView::from_fields(
                known.deep_view(),
                self@.versions[i as int].fields,
            ),
            sec.inner@.wf(known.deep_view()),
    {
        proof {
            assert(self@.versions[i as int] == self.versions@[i as int]@);
        }
        let v = &self.versions[i];
        let inner = parse_fields(known, &v.fields);
        Secret { arn: self.arn.clone(), version_id: v.version_id.clone(), inner }
    }

    /// Fetches the version of the secret carrying `version_stage`, with its
    /// payload parsed against the typed shape `known`. Fails exactly when
    /// the name does not address this secret, the stage is not one of the
    /// two well-known labels, or no version carries the label.
    pub fn get_secret_value(&self, secret_id: &str, version_stage: &str, known: &Vec<String>) -> (r:
        Result<Secret, RotateError>)
        requires
            self.wf(),
        ensures
            match r {
                Ok(sec) => spec_get(self@, secret_id@, version_stage@) matches Ok(v) && sec.arn@
                    == self@.arn && sec.version_id@ == v.version_id && sec.inner@
                    == ContainerView::from_fields(known.deep_view(), v.fields) && sec.inner@.wf(
                    known.deep_view(),
                ),
                Err(e) => spec_get(self@, secret_id@, version_stage@) == Err::<
                    SecretVersionView,
                    RotateError,
                >(e),
            },
    {
        if !self.name_matches(secret_id) {
            return Err(RotateError::UnknownSecret);
        }
        if str_eq(version_stage, "AWSCURRENT") {
            match self.find_current() {
                Some(i) => Ok(self.secret_at(i, known)),
                None => Err(RotateError::NoVersionForStage),
            }
        } else if str_eq(version_stage, "AWSPENDING") {
            match self.find_pending() {
                Some(i) => Ok(self.secret_at(i, known)),
                None => Err(RotateError::NoVersionForStage),
            }
        } else {
            Err(RotateError::UnknownStage)
        }
    }

    /// Fetches the current secret value of the given secret id.
    pub fn get_secret_value_current(&self, secret_id: &str, known: &Vec<String>) -> (r: Result<
        Secret,
        RotateError,
    >)
        requires
            self.wf(),
        ensures
            match r {
                Ok(sec) => spec_get(self@, secret_id@, "AWSCURRENT"@) matches Ok(v) && sec.arn@
                    == self@.arn && sec.version_id@ == v.version_id && sec.inner@
                    == ContainerView::from_fields(known.deep_view(), v.fields) && sec.inner@.wf(
                    known.deep_view(),
                ),
                Err(e) => spec_get(self@, secret_id@, "AWSCURRENT"@) == Err::<
                    SecretVersionView,
                    RotateError,
                >(e),
            },
    {
        self.get_secret_value(secret_id, "AWSCURRENT", known)
    }

    /// Fetches the pending secret value of the given secret id.
    pub fn get_secret_value_pending(&self, secret_id: &str, known: &Vec<String>) -> (r: Result<
        Secret,
        RotateError,
    >)
        requires
            self.wf(),
        ensures
            match r {
                Ok(sec) => spec_get(self@, secret_id@, "AWSPENDING"@) matches Ok(v) && sec.arn@
                    == self@.arn && sec.version_id@ == v.version_id && sec.inner@
                    == ContainerView::from_fields(known.deep_view(), v.fields) && sec.inner@.wf(
                    known.deep_view(),
                ),
                Err(e) => spec_get(self@, secret_id@, "AWSPENDING"@) == Err::<
                    SecretVersionView,
                    RotateError,
                >(e),
            },
    {
        self.get_secret_value(secret_id, "AWSPENDING", known)
    }

    fn rebuild_with_pending(&mut self, target: usize)
        ensures
            final(self)@.secret_id == old(self)@.secret_id,
            final(self)@.arn == old(self)@.arn,
            final(self)@.versions == move_pending(old(self)@.versions, target as int),
    {
        let n = self.versions.len();
        let mut out: Vec<SecretVersion> = Vec::new();
        let mut i: usize = 0;
        while i < n
            invariant
                n == self.versions.len(),
                self@ == old(self)@,
                i <= n,
                out@.len() == i,
                forall|k: int|
                    0 <= k < i ==> out.deep_view()[k] == #[trigger] move_pending(
                        old(self)@.versions,
                        target as int,
                    )[k],
            decreases n - i,
        {
            let v = &self.versions[i];
            let copy = SecretVersion {
                version_id: v.version_id.clone(),
                fields: clone_fields(&v.fields),
                current: v.current,
                pending: i == target,
            };
            out.push(copy);
            proof {
                assert(self@.versions[i as int] == self.versions@[i as int]@);
                assert(out.deep_view()[i as int] == move_pending(
                    old(self)@.versions,
                    target as int,
                )[i as int]);
            }
            i += 1;
        }
        self.versions = out;
        proof {
            assert(self.versions.deep_view().len() == n);
            assert(move_pending(old(self)@.versions, target as int).len() == n);
            assert(self.versions.deep_view() =~~= move_pending(
                old(self)@.versions,
                target as int,
            ));
        }
    }

    fn rebuild_with_current(&mut self, to_id: &str)
        ensures
            final(self)@.secret_id == old(self)@.secret_id,
            final(self)@.arn == old(self)@.arn,
            final(self)@.versions == move_current(old(self)@.versions, to_id@),
    {
        let n = self.versions.len();
        let mut out: Vec<SecretVersion> = Vec::new();
        let mut i: usize = 0;
        while i < n
            invariant
                n == self.versions.len(),
                self@ == old(self)@,
                i <= n,
                out@.len() == i,
                forall|k: int|
                    0 <= k < i ==> out.deep_view()[k] == #[trigger] move_current(
                        old(self)@.versions,
                        to_id@,
                    )[k],
            decreases n - i,
        {
            let v = &self.versions[i];
            let is_target = str_eq(v.version_id.as_str(), to_id);
            let copy = SecretVersion {
                version_id: v.version_id.clone(),
                fields: clone_fields(&v.fields),
                current: is_target,
                pending: v.pending,
            };
            out.push(copy);
            proof {
                assert(self@.versions[i as int] == self.versions@[i as int]@);
                assert(out.deep_view()[i as int] == move_current(old(self)@.versions, to_id@)[
                    i as int
                ]);
            }
            i += 1;
        }
        self.versions = out;
        proof {
            assert(self.versions.deep_view().len() == n);
            assert(move_current(old(self)@.versions, to_id@).len() == n);
            assert(self.versions.deep_view() =~~= move_current(old(self)@.versions, to_id@));
        }
    }

    /// Writes `value` as a new version labeled pending, tagged with the
    /// idempotency token `request_token`: the token becomes the version id,
    /// a repeated write with the same token and payload is deduplicated by
    /// the store, and a reused token with a different payload is refused.
    pub fn put_secret_value_pending(
        &mut self,
        secret_id: &str,
        request_token: &str,
        value: &SecretContainer,
    ) -> (r: Result<(), RotateError>)
        requires
            old(self).wf(),
        ensures
            final(self).wf(),
            match r {
                Ok(()) => spec_put(old(self)@, secret_id@, request_token@, value@.merged())
                    == Ok::<SmcView, RotateError>(final(self)@),
                Err(e) => spec_put(old(self)@, secret_id@, request_token@, value@.merged())
                    == Err::<SmcView, RotateError>(e) && final(self)@ == old(self)@,
            },
    {
        if !self.name_matches(secret_id) {
            return Err(RotateError::UnknownSecret);
        }
        let fields = value.serialize_fields();
        match self.find_version(request_token) {
            Some(i) => {
                proof {
                    assert(self@.versions[i as int] == self.versions@[i as int]@);
                }
                if !fields_eq(&self.versions[i].fields, &fields) {
                    return Err(RotateError::TokenReused);
                }
                let ghost pre = self@;
                self.rebuild_with_pending(i);
                proof {
                    lemma_move_pending_wf(pre, i as int);
                    assert(final(self)@ =~~= (SmcView {
                        versions: move_pending(pre.versions, i as int),
                        ..pre
                    }));
                }
                Ok(())
            },
            None => {
                let n = self.versions.len();
                let ghost pre = self@;
                self.rebuild_with_pending(n);
                let ghost mid = self@;
                self.versions.push(
                    SecretVersion {
                        version_id: request_token.to_owned(),
                        fields,
                        current: false,
                        pending: true,
                    },
                );
                proof {
                    let added = SecretVersionView {
                        version_id: request_token@,
                        fields: value@.merged(),
                        current: false,
                        pending: true,
                    };
                    assert(mid.versions == move_pending(pre.versions, n as int));
                    assert(move_pending(pre.versions, n as int).len() == n);
                    assert(self.versions@.len() == n + 1);
                    assert(self.versions.deep_view().len() == n + 1);
                    assert(self.versions.deep_view()[n as int] == added);
                    assert forall|k: int| 0 <= k < n implies #[trigger] self.versions.deep_view()[k]
                        == move_pending(pre.versions, n as int)[k] by {
                        assert(mid.versions[k] == move_pending(pre.versions, n as int)[k]);
                        assert(self.versions.deep_view()[k] == self.versions@[k].deep_view());
                    }
                    assert(self.versions.deep_view() =~~= move_pending(
                        pre.versions,
                        n as int,
                    ).push(added));
                    assert(final(self)@ =~~= (SmcView {
                        versions: move_pending(pre.versions, n as int).push(added),
                        ..pre
                    }));
                    lemma_put_fresh_wf(pre, request_token@, value@.merged());
                }
                Ok(())
            },
        }
    }

    /// Atomically moves the current label from the version named
    /// `secret_current_version_id` to the one named
    /// `secret_pending_version_id`. Afterwards the current stage resolves to
    /// the promoted version — the formerly pending id — while the former
    /// current version keeps its id but no longer carries the label.
    pub fn set_pending_secret_value_to_current(
        &mut self,
        secret_arn: String,
        secret_current_version_id: String,
        secret_pending_version_id: String,
    ) -> (r: Result<(), RotateError>)
        requires
            old(self).wf(),
        ensures
            final(self).wf(),
            match r {
                Ok(()) => spec_promote(
                    old(self)@,
                    secret_arn@,
                    secret_current_version_id@,
                    secret_pending_version_id@,
                ) == Ok::<SmcView, RotateError>(final(self)@) && (final(self)@.spec_current()
                    matches Some(v) && v.version_id == secret_pending_version_id@) && (
                secret_current_version_id@ != secret_pending_version_id@ ==> forall|i: int|
                    0 <= i < final(self)@.versions.len()
                        && (#[trigger] final(self)@.versions[i]).version_id
                        == secret_current_version_id@ ==> !final(self)@.versions[i].current),
                Err(e) => spec_promote(
                    old(self)@,
                    secret_arn@,
                    secret_current_version_id@,
                    secret_pending_version_id@,
                ) == Err::<SmcView, RotateError>(e) && final(self)@ == old(self)@,
            },
    {
        if !self.name_matches(secret_arn.as_str()) {
            return Err(RotateError::UnknownSecret);
        }
        let from = self.find_version(secret_current_version_id.as_str());
        let to = self.find_version(secret_pending_version_id.as_str());
        match (from, to) {
            (Some(f), Some(t)) => {
                proof {
                    assert(self@.versions[f as int] == self.versions@[f as int]@);
                }
                if !self.versions[f].current {
                    return Err(RotateError::StageNotOnVersion);
                }
                let ghost pre = self@;
                self.rebuild_with_current(secret_pending_version_id.as_str());
                proof {
                    assert(final(self)@ =~~= (SmcView {
                        versions: move_current(pre.versions, secret_pending_version_id@),
                        ..pre
                    }));
                    lemma_move_current_wf(pre, secret_pending_version_id@, t as int);
                    assert(final(self)@.versions[t as int].current);
                    assert(final(self)@.has_current());
                    let c = final(self)@.current_idx();
                    assert(0 <= c < final(self)@.versions.len() && final(self)@.versions[c].current);
                    assert(c == t as int);
                }
                Ok(())
            },
            _ => Err(RotateError::MissingVersion),
        }
    }
}

proof fn lemma_move_pending_wf(s: SmcView, t: int)
    requires
        s.wf(),
    ensures
        (SmcView { versions: move_pending(s.versions, t), ..s }).wf(),
{
    let vs = move_pending(s.versions, t);
    assert forall|i: int| 0 <= i < vs.len() implies (#[trigger] vs[i]).version_id
        == s.versions[i].version_id && vs[i].current == s.versions[i].current by {}
}

proof fn lemma_put_fresh_wf(s: SmcView, token: Seq<char>, payload: Seq<(Seq<char>, Seq<char>)>)
    requires
        s.wf(),
        !s.has_version(token),
    ensures
        (SmcView {
            versions: move_pending(s.versions, s.versions.len() as int).push(
                SecretVersionView {
                    version_id: token,
                    fields: payload,
                    current: false,
                    pending: true,
                },
            ),
            ..s
        }).wf(),
{
    let n = s.versions.len() as int;
    let vs = move_pending(s.versions, n).push(
        SecretVersionView { version_id: token, fields: payload, current: false, pending: true },
    );
    assert forall|i: int| 0 <= i < n implies (#[trigger] vs[i]).version_id
        == s.versions[i].version_id && vs[i].current == s.versions[i].current && !vs[i].pending by {
        assert(vs[i] == move_pending(s.versions, n)[i]);
    }
    assert forall|i: int| 0 <= i < n implies (#[trigger] vs[i]).version_id != token by {
        assert(s.versions[i].version_id != token);
    }
}

proof fn lemma_move_current_wf(s: SmcView, to_id: Seq<char>, t: int)
    requires
        s.wf(),
        0 <= t < s.versions.len(),
        s.versions[t].version_id == to_id,
    ensures
        (SmcView { versions: move_current(s.versions, to_id), ..s }).wf(),
        forall|i: int|
            0 <= i < s.versions.len() ==> ((#[trigger] move_current(s.versions, to_id)[i]).current
                <==> i == t),
{
    let vs = move_current(s.versions, to_id);
    assert forall|i: int| 0 <= i < vs.len() implies (#[trigger] vs[i]).version_id
        == s.versions[i].version_id && vs[i].pending == s.versions[i].pending && (vs[i].current
        <==> i == t) by {
        if vs[i].current {
            assert(s.versions[i].version_id == to_id);
            assert(i == t);
        }
    }
}


/// Shape of a successful pending write: the store keeps its names, the
/// pending label sits exactly on the version whose id is the idempotency
/// token, a fresh token grows the version list by exactly one and its
/// version carries the written payload, and a deduplicated token leaves the
/// version count unchanged.
pub proof fn lemma_put_pending_shape(
    s: SmcView,
    name: Seq<char>,
    token: Seq<char>,
    payload: Seq<(Seq<char>, Seq<char>)>,
)
    requires
        s.wf(),
        spec_put(s, name, token, payload) is Ok,
    ensures
        ({
            let s2 = spec_put(s, name, token, payload)->Ok_0;
            &&& s2.wf()
            &&& s2.secret_id == s.secret_id
            &&& s2.arn == s.arn
            &&& (s2.spec_pending() matches Some(p) && p.version_id == token)
            &&& (!s.has_version(token) ==> s2.versions.len() == s.versions.len() + 1 && (
            s2.spec_pending() matches Some(p) && p.fields == payload))
            &&& (s.has_version(token) ==> s2.versions.len() == s.versions.len())
        }),
{
    let s2 = spec_put(s, name, token, payload)->Ok_0;
    if s.has_version(token) {
        let idx = s.version_idx(token);
        assert(0 <= idx < s.versions.len() && s.versions[idx].version_id == token);
        lemma_move_pending_wf(s, idx);
        let vs = move_pending(s.versions, idx);
        assert(vs[idx].pending && vs[idx].version_id == token);
        assert(s2.versions == vs);
        assert(s2.has_pending());
        let c = s2.pending_idx();
        assert(0 <= c < vs.len() && vs[c].pending);
        assert(c == idx);
    } else {
        lemma_put_fresh_wf(s, token, payload);
        let n = s.versions.len() as int;
        let vs = s2.versions;
        assert(vs[n] == SecretVersionView {
            version_id: token,
            fields: payload,
            current: false,
            pending: true,
        });
        assert(s2.has_pending());
        let c = s2.pending_idx();
        assert(0 <= c < vs.len() && vs[c].pending);
        assert forall|k: int| 0 <= k < n implies !(#[trigger] vs[k]).pending by {
            assert(vs[k] == move_pending(s.versions, n)[k]);
        }
        assert(c == n);
    }
}


/// For a Create step against a store with no pending version and a fresh
/// idempotency token: the write succeeds and adds exactly one version — the
/// new pending one, carrying the token as its id and the candidate's
/// emitted union as its payload — and, because serialisation is injective
/// on one typed shape, that payload differs from the current version's
/// whenever the candidate container differs from the current one.
pub proof fn lemma_create_fresh_writes_once(
    s: SmcView,
    name: Seq<char>,
    token: Seq<char>,
    cand: ContainerView,
    cur: ContainerView,
    known: Seq<Seq<char>>,
)
    requires
        s.wf(),
        s.named(name),
        !s.has_pending(),
        !s.has_version(token),
        cand.wf(known),
        cur.wf(known),
        s.spec_current() matches Some(c) && c.fields == cur.merged(),
        cand != cur,
    ensures
        spec_put(s, name, token, cand.merged()) is Ok,
        spec_put(s, name, token, cand.merged())->Ok_0.versions.len() == s.versions.len() + 1,
        (spec_put(s, name, token, cand.merged())->Ok_0.spec_pending() matches Some(p)
            && p.version_id == token && p.fields == cand.merged()),
        spec_put(s, name, token, cand.merged())->Ok_0.spec_pending()->Some_0.fields
            != s.spec_current()->Some_0.fields,
{
    lemma_put_pending_shape(s, name, token, cand.merged());
    if cand.merged() == cur.merged() {
        crate::rotate::container::lemma_serialize_injective(cand, cur, known);
        assert(false);
    }
}

/// A pending version whose id equals current's is stale — the orphan of an
/// abandoned attempt, not an in-progress rotation — so the Create step
/// still writes: under a fresh token the write succeeds, adds exactly one
/// version, and the pending label moves onto the new version and off the
/// stale one.
pub proof fn lemma_create_stale_recovers(
    s: SmcView,
    name: Seq<char>,
    token: Seq<char>,
    payload: Seq<(Seq<char>, Seq<char>)>,
)
    requires
        s.wf(),
        s.named(name),
        s.spec_pending() matches Some(p) && (s.spec_current() matches Some(c) && p.version_id
            == c.version_id),
        !s.has_version(token),
    ensures
        spec_put(s, name, token, payload) is Ok,
        spec_put(s, name, token, payload)->Ok_0.versions.len() == s.versions.len() + 1,
        (spec_put(s, name, token, payload)->Ok_0.spec_pending() matches Some(np) && np.version_id
            == token && np.fields == payload),
        spec_put(s, name, token, payload)->Ok_0.spec_pending()->Some_0.version_id
            != s.spec_pending()->Some_0.version_id,
{
    lemma_put_pending_shape(s, name, token, payload);
    let stale = s.spec_pending()->Some_0;
    assert(s.versions[s.pending_idx()] == stale);
    assert(s.has_version(stale.version_id));
}


/// The request shape for new secret material: the double-quote character is
/// excluded unconditionally (payload transport safety), punctuation is
/// excluded exactly when not requested, and the requested length is passed
/// through unchanged.
pub fn password_request(punctuation: bool, length: Option<i64>) -> (r: (String, bool, Option<i64>))
    ensures
        r.0@ == "\""@,
        r.1 == !punctuation,
        r.2 == length,
{
    (String::from_str("\""), !punctuation, length)
}

/// Accepts the store's reply to a password request: the material when there
/// is any, and a failure when the store returned none.
pub fn accept_password(material: Option<String>) -> (r: Result<String, RotateError>)
    ensures
        match material {
            Some(s) => r == Ok::<String, RotateError>(s),
            None => r == Err::<String, RotateError>(RotateError::PasswordEmpty),
        },
{
    match material {
        Some(s) => Ok(s),
        None => Err(RotateError::PasswordEmpty),
    }
}


/// The payload text of a fetch response: the secret text when the store
/// sent one, else the secret binary decoded as UTF-8.
pub open spec fn spec_response_payload(
    secret_string: Option<String>,
    secret_binary: Option<Vec<u8>>,
) -> Option<Seq<char>> {
    match secret_string {
        Some(s) => Some(s@),
        None => match secret_binary {
            Some(b) => utf8_of(b@),
            None => None,
        },
    }
}

/// Validates one raw fetch response of the store and parses its payload
/// against the typed shape `known`: the identifying metadata (arn, version
/// id) must be present, the payload must be there — as text, or as binary
/// holding UTF-8 — and must be a JSON object. Each missing part is reported
/// as its own error.
pub fn validate_secret_response(
    arn: Option<String>,
    version_id: Option<String>,
    secret_string: Option<String>,
    secret_binary: Option<Vec<u8>>,
    known: &Vec<String>,
) -> (r: Result<Secret, RotateError>)
    ensures
        match r {
            Ok(sec) => {
                &&& arn matches Some(a) && sec.arn == a
                &&& version_id matches Some(v) && sec.version_id == v
                &&& ({
                    let payload = spec_response_payload(secret_string, secret_binary);
                    &&& payload is Some
                    &&& (json_fields_of(payload->Some_0) matches Some(fields) && sec.inner@
                        == ContainerView::from_fields(known.deep_view(), fields))
                })
                &&& sec.inner@.wf(known.deep_view())
            },
            Err(e) => {
                let payload = spec_response_payload(secret_string, secret_binary);
                ||| (arn is None && e == RotateError::MissingArn)
                ||| (arn is Some && version_id is None && e == RotateError::MissingVersionId)
                ||| (arn is Some && version_id is Some && payload is None && e
                    == RotateError::MissingSecretPayload)
                ||| (arn is Some && version_id is Some && payload is Some && json_fields_of(
                    payload->Some_0,
                ) is None && e == RotateError::PayloadNotObject)
            },
        },
{
    let arn = match arn {
        Some(a) => a,
        None => {
            return Err(RotateError::MissingArn);
        },
    };
    let version_id = match version_id {
        Some(v) => v,
        None => {
            return Err(RotateError::MissingVersionId);
        },
    };
    let payload = match secret_string {
        Some(s) => s,
        None => match secret_binary {
            Some(b) => match utf8_string(b) {
                Some(s) => s,
                None => {
                    return Err(RotateError::MissingSecretPayload);
                },
            },
            None => {
                return Err(RotateError::MissingSecretPayload);
            },
        },
    };
    match parse_container(known, payload.as_str()) {
        Ok(inner) => Ok(Secret { arn, version_id, inner }),
        Err(e) => Err(e),
    }
}

} // verus!
