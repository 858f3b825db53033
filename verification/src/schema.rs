//! The schema registry: an append-only set of schema records, each stored
//! under the identifier derived from its deployer and its content.

use vstd::prelude::*;
use crate::digest::{content_bytes, derive_identifier, schema_uid};
use crate::identity::Identity;
use crate::levy::{fee_due, Levy};
use crate::signal::{Signal, SignalLog};

verus! {

/// The content bound of a registry made with `SchemaRegistry::new`.
pub const DEFAULT_SCHEMA_LIMIT: usize = 200;

/// Why a registration was refused.
#[derive(Clone, Copy, Debug, PartialEq, Eq)]
pub enum RegistryError {
    /// A record already stands under the derived identifier.
    AlreadyExists,
    /// The content is empty or longer than the registry's bound.
    InvalidInput,
}

/// A published schema. Nothing in it changes after creation.
#[derive(Clone, Debug, PartialEq, Eq)]
pub struct SchemaData {
    /// The key of the record, derived from `deployer` and `schema`.
    pub uid: Identity,
    /// The description of the schema, kept exactly as it was handed in.
    pub schema: String,
    /// The delegate that checks attestations; `None` accepts all.
    pub resolver: Option<Identity>,
    /// Whether attestations issued against this schema may be revoked.
    pub revocable: bool,
    /// Who created the schema.
    pub deployer: Identity,
    /// The fee for using the schema, if any.
    pub levy: Option<Levy>,
}

impl SchemaData {
    /// A copy equal to this record in every field.
    pub fn duplicate(&self) -> (copy: SchemaData)
        ensures
            copy == *self,
    {
        SchemaData {
            uid: self.uid,
            schema: self.schema.clone(),
            resolver: self.resolver,
            revocable: self.revocable,
            deployer: self.deployer,
            levy: self.levy,
        }
    }

    /// The fee owed for using this schema, in canonical form: `None` both
    /// for a record without levy and for one whose levy has amount zero.
    pub fn fee(&self) -> (owed: Option<Levy>)
        ensures
            owed == fee_due(self.levy),
    {
        Levy::due(&self.levy)
    }
}

/// Content is acceptable when it is not empty and its bytes fit the bound.
pub open spec fn valid_content(content: Seq<char>, limit: nat) -> bool {
    0 < content_bytes(content).len() <= limit
}

/// Some record in `records` stands under `uid`.
pub open spec fn holds_uid(records: Seq<SchemaData>, uid: Identity) -> bool {
    exists|i: int| 0 <= i < records.len() && (#[trigger] records[i]).uid == uid
}

/// `index` is the first place in `records` where a record stands under
/// `uid`.
pub open spec fn first_under_uid(records: Seq<SchemaData>, uid: Identity, index: int) -> bool {
    &&& 0 <= index < records.len()
    &&& records[index].uid == uid
    &&& forall|j: int| 0 <= j < index ==> (#[trigger] records[j]).uid != uid
}

/// How many records in `records` stand under `uid`.
pub open spec fn count_uid(records: Seq<SchemaData>, uid: Identity) -> nat
    decreases records.len(),
{
    if records.len() == 0 {
        0
    } else {
        count_uid(records.drop_last(), uid) + if records.last().uid == uid {
            1nat
        } else {
            0nat
        }
    }
}

/// A record is sound when its content is acceptable and it carries the
/// identifier derived from its own deployer and content.
pub open spec fn sound_record(record: SchemaData, limit: nat) -> bool {
    &&& valid_content(record.schema@, limit)
    &&& record.uid == schema_uid(record.deployer, record.schema@)
}

/// The invariant of a registry's records: every record is sound, and no
/// identifier occurs twice.
pub open spec fn well_formed_records(records: Seq<SchemaData>, limit: nat) -> bool {
    &&& forall|i: int| 0 <= i < records.len() ==> sound_record(#[trigger] records[i], limit)
    &&& forall|i: int, j: int|
        0 <= i < j < records.len() ==> (#[trigger] records[i]).uid != (#[trigger] records[j]).uid
}

/// What loading `records` answers. The records are examined in order; the
/// first one that is unsound gives `InvalidInput`, the first one whose
/// identifier an earlier record already carries gives `AlreadyExists`.
pub open spec fn restore_outcome(records: Seq<SchemaData>, limit: nat) -> Result<
    (),
    RegistryError,
>
    decreases records.len(),
{
    if records.len() == 0 {
        Ok(())
    } else {
        match restore_outcome(records.drop_last(), limit) {
            Err(e) => Err(e),
            Ok(_) => if !sound_record(records.last(), limit) {
                Err(RegistryError::InvalidInput)
            } else if holds_uid(records.drop_last(), records.last().uid) {
                Err(RegistryError::AlreadyExists)
            } else {
                Ok(())
            },
        }
    }
}

/// What a registration answers, given the records so far and the identifier
/// `uid` of the new schema.
pub open spec fn register_outcome(
    records: Seq<SchemaData>,
    limit: nat,
    uid: Identity,
    deployer: Identity,
    schema: String,
    resolver: Option<Identity>,
    revocable: bool,
    levy: Option<Levy>,
) -> Result<SchemaData, RegistryError> {
    if !valid_content(schema@, limit) {
        Err(RegistryError::InvalidInput)
    } else if holds_uid(records, uid) {
        Err(RegistryError::AlreadyExists)
    } else {
        Ok(SchemaData { uid, schema, resolver, revocable, deployer, levy })
    }
}

/// The records after a registration: the new record is appended on success,
/// and nothing moves on failure.
pub open spec fn records_after_register(
    records: Seq<SchemaData>,
    outcome: Result<SchemaData, RegistryError>,
) -> Seq<SchemaData> {
    match outcome {
        Ok(record) => records.push(record),
        Err(_) => records,
    }
}

/// The captured signals after a registration: one `SchemaRegistered` more on
/// success, the same as before on failure.
pub open spec fn signals_after_register(
    signals: Seq<Signal>,
    outcome: Result<SchemaData, RegistryError>,
) -> Seq<Signal> {
    match outcome {
        Ok(record) => signals.push(
            Signal::SchemaRegistered { uid: record.uid, deployer: record.deployer },
        ),
        Err(_) => signals,
    }
}

/// Checks schema content against a bound in bytes.
pub fn validate_content(content: &str, limit: usize) -> (checked: Result<(), RegistryError>)
    ensures
        checked == if valid_content(content@, limit as nat) {
            Ok::<(), RegistryError>(())
        } else {
            Err(RegistryError::InvalidInput)
        },
{
    let n: usize = content.as_bytes().len();
    if n == 0 || n > limit {
        Err(RegistryError::InvalidInput)
    } else {
        Ok(())
    }
}

/// Whether one of the first `n` records carries the identifier of the
/// record at `n`.
fn uid_seen_before(records: &Vec<SchemaData>, n: usize) -> (seen: bool)
    requires
        n < records.len(),
    ensures
        seen == holds_uid(records@.take(n as int), records@[n as int].uid),
{
    let ghost head = records@.take(n as int);
    let mut j: usize = 0;
    while j < n
        invariant
            j <= n,
            n < records.len(),
            head == records@.take(n as int),
            forall|k: int| 0 <= k < j ==> (#[trigger] head[k]).uid != records@[n as int].uid,
        decreases n - j,
    {
        if records[j].uid.same_as(&records[n].uid) {
            assert(head[j as int].uid == records@[n as int].uid);
            return true;
        }
        j += 1;
    }
    false
}

/// The schema records created so far, in the order of their creation.
/// Records are only ever added.
#[derive(Debug)]
pub struct SchemaRegistry {
    records: Vec<SchemaData>,
    max_schema_bytes: usize,
}

impl View for SchemaRegistry {
    type V = Seq<SchemaData>;

    closed spec fn view(&self) -> Seq<SchemaData> {
        self.records@
    }
}

impl SchemaRegistry {
    /// The largest content, in bytes, that this registry accepts.
    pub closed spec fn limit(&self) -> nat {
        self.max_schema_bytes as nat
    }

    /// The registry's invariant: see `well_formed_records`.
    pub open spec fn wf(&self) -> bool {
        well_formed_records(self@, self.limit())
    }

    /// An empty registry with the default content bound.
    pub fn new() -> (registry: SchemaRegistry)
        ensures
            registry.wf(),
            registry@ == Seq::<SchemaData>::empty(),
            registry.limit() == DEFAULT_SCHEMA_LIMIT,
    {
        SchemaRegistry { records: Vec::new(), max_schema_bytes: DEFAULT_SCHEMA_LIMIT }
    }

    /// An empty registry that accepts content of up to `max_schema_bytes`
    /// bytes.
    pub fn with_limit(max_schema_bytes: usize) -> (registry: SchemaRegistry)
        ensures
            registry.wf(),
            registry@ == Seq::<SchemaData>::empty(),
            registry.limit() == max_schema_bytes,
    {
        SchemaRegistry { records: Vec::new(), max_schema_bytes }
    }

    /// Loads a registry from records that were stored earlier, in their
    /// order of creation, after checking the invariant on them.
    ///
    /// Succeeds exactly when the records are well formed under the bound;
    /// the registry then holds them as given. Otherwise the answer is the
    /// error of the first offending record, as `restore_outcome` describes.
    pub fn from_records(records: Vec<SchemaData>, max_schema_bytes: usize) -> (loaded: Result<
        SchemaRegistry,
        RegistryError,
    >)
        ensures
            loaded is Ok <==> well_formed_records(records@, max_schema_bytes as nat),
            match loaded {
                Ok(registry) => {
                    &&& registry.wf()
                    &&& registry@ == records@
                    &&& registry.limit() == max_schema_bytes
                },
                Err(e) => restore_outcome(records@, max_schema_bytes as nat) == Err::<
                    (),
                    RegistryError,
                >(e),
            },
    {
        let ghost limit = max_schema_bytes as nat;
        let mut i: usize = 0;
        while i < records.len()
            invariant
                i <= records.len(),
                restore_outcome(records@.take(i as int), limit) == Ok::<(), RegistryError>(()),
                limit == max_schema_bytes as nat,
            decreases records.len() - i,
        {
            let ghost head = records@.take(i as int);
            let ghost upto = records@.take(i + 1);
            assert(upto.drop_last() == head);
            assert(upto.last() == records@[i as int]);
            let record = &records[i];
            if validate_content(record.schema.as_str(), max_schema_bytes).is_err() {
                proof {
                    lemma_restore_error_persists(records@, limit, i + 1);
                    lemma_restore_ok_iff_well_formed(records@, limit);
                }
                return Err(RegistryError::InvalidInput);
            }
            let derived = derive_identifier(&record.deployer, record.schema.as_str());
            if !derived.same_as(&record.uid) {
                proof {
                    lemma_restore_error_persists(records@, limit, i + 1);
                    lemma_restore_ok_iff_well_formed(records@, limit);
                }
                return Err(RegistryError::InvalidInput);
            }
            if uid_seen_before(&records, i) {
                proof {
                    lemma_restore_error_persists(records@, limit, i + 1);
                    lemma_restore_ok_iff_well_formed(records@, limit);
                }
                return Err(RegistryError::AlreadyExists);
            }
            i += 1;
        }
        proof {
            assert(records@.take(i as int) == records@);
            lemma_restore_ok_iff_well_formed(records@, limit);
        }
        Ok(SchemaRegistry { records, max_schema_bytes })
    }

    /// The content bound in bytes.
    pub fn max_schema_bytes(&self) -> (limit: usize)
        ensures
            limit == self.limit(),
    {
        self.max_schema_bytes
    }

    /// Number of records.
    pub fn len(&self) -> (n: usize)
        ensures
            n == self@.len(),
    {
        self.records.len()
    }

    /// A copy of the record at `index`, counted in the order of creation.
    pub fn record_at(&self, index: usize) -> (found: Option<SchemaData>)
        ensures
            found == if index < self@.len() {
                Some(self@[index as int])
            } else {
                None
            },
    {
        if index < self.records.len() {
            Some(self.records[index].duplicate())
        } else {
            None
        }
    }

    /// Where the record under `uid` stands, if there is one.
    fn position_of(&self, uid: &Identity) -> (found: Option<usize>)
        ensures
            match found {
                Some(i) => first_under_uid(self@, *uid, i as int),
                None => !holds_uid(self@, *uid),
            },
    {
        let mut i: usize = 0;
        while i < self.records.len()
            invariant
                i <= self.records.len(),
                forall|j: int| 0 <= j < i ==> (#[trigger] self.records@[j]).uid != *uid,
            decreases self.records.len() - i,
        {
            if self.records[i].uid.same_as(uid) {
                return Some(i);
            }
            i += 1;
        }
        None
    }

    /// Whether a record stands under `uid`.
    pub fn contains(&self, uid: &Identity) -> (present: bool)
        ensures
            present == holds_uid(self@, *uid),
    {
        self.position_of(uid).is_some()
    }

    /// A copy of the record under `uid`: the earliest one, which in a
    /// well-formed registry is the only one.
    pub fn get(&self, uid: &Identity) -> (found: Option<SchemaData>)
        ensures
            match found {
                Some(record) => exists|i: int|
                    first_under_uid(self@, *uid, i) && self@[i] == record,
                None => !holds_uid(self@, *uid),
            },
    {
        match self.position_of(uid) {
            Some(i) => {
                let record = self.records[i].duplicate();
                assert(first_under_uid(self@, *uid, i as int) && self@[i as int] == record);
                Some(record)
            },
            None => None,
        }
    }

    /// Creates the record for a schema whose identifier `uid` has already
    /// been derived from `deployer` and `schema`.
    ///
    /// Empty or oversized content gives `InvalidInput`; an identifier that is
    /// already taken gives `AlreadyExists`; in both cases neither the
    /// registry nor the sink changes. Otherwise the record is appended
    /// exactly as given, returned, and announced by one `SchemaRegistered`
    /// signal.
    pub fn register_derived(
        &mut self,
        uid: Identity,
        deployer: Identity,
        schema: String,
        resolver: Option<Identity>,
        revocable: bool,
        levy: Option<Levy>,
        sink: &mut SignalLog,
    ) -> (outcome: Result<SchemaData, RegistryError>)
        requires
            old(self).wf(),
            uid == schema_uid(deployer, schema@),
        ensures
            final(self).wf(),
            final(self).limit() == old(self).limit(),
            outcome == register_outcome(
                old(self)@,
                old(self).limit(),
                uid,
                deployer,
                schema,
                resolver,
                revocable,
                levy,
            ),
            final(self)@ == records_after_register(old(self)@, outcome),
            final(sink)@ == signals_after_register(old(sink)@, outcome),
    {
        if validate_content(schema.as_str(), self.max_schema_bytes).is_err() {
            return Err(RegistryError::InvalidInput);
        }
        if self.position_of(&uid).is_some() {
            return Err(RegistryError::AlreadyExists);
        }
        let record = SchemaData { uid, schema, resolver, revocable, deployer, levy };
        self.records.push(record.duplicate());
        sink.emit(Signal::SchemaRegistered { uid, deployer });
        Ok(record)
    }

    /// Publishes a schema on behalf of `deployer`.
    ///
    /// The content is checked first, then the identifier is derived from
    /// `deployer` and `schema`, and the record is created under it as
    /// `register_derived` describes. The identifier is never supplied by the
    /// caller.
    pub fn register_schema(
        &mut self,
        deployer: Identity,
        schema: String,
        resolver: Option<Identity>,
        revocable: bool,
        levy: Option<Levy>,
        sink: &mut SignalLog,
    ) -> (outcome: Result<SchemaData, RegistryError>)
        requires
            old(self).wf(),
        ensures
            final(self).wf(),
            final(self).limit() == old(self).limit(),
            outcome == register_outcome(
                old(self)@,
                old(self).limit(),
                schema_uid(deployer, schema@),
                deployer,
                schema,
                resolver,
                revocable,
                levy,
            ),
            final(self)@ == records_after_register(old(self)@, outcome),
            final(sink)@ == signals_after_register(old(sink)@, outcome),
    {
        if validate_content(schema.as_str(), self.max_schema_bytes).is_err() {
            return Err(RegistryError::InvalidInput);
        }
        let uid = derive_identifier(&deployer, schema.as_str());
        self.register_derived(uid, deployer, schema, resolver, revocable, levy, sink)
    }
}

/// Loading succeeds on exactly the well-formed sequences of records.
pub proof fn lemma_restore_ok_iff_well_formed(records: Seq<SchemaData>, limit: nat)
    ensures
        restore_outcome(records, limit) is Ok <==> well_formed_records(records, limit),
    decreases records.len(),
{
    if records.len() > 0 {
        let head = records.drop_last();
        let last = records.len() - 1;
        lemma_restore_ok_iff_well_formed(head, limit);
        assert forall|i: int| 0 <= i < head.len() implies head[i] == records[i] by {}
        if restore_outcome(records, limit) is Ok {
            assert forall|i: int| 0 <= i < records.len() implies sound_record(
                #[trigger] records[i],
                limit,
            ) by {
                if i < last {
                    assert(sound_record(head[i], limit));
                }
            }
            assert forall|i: int, j: int| 0 <= i < j < records.len() implies (
            #[trigger] records[i]).uid != (#[trigger] records[j]).uid by {
                if j < last {
                    assert(head[i].uid != head[j].uid);
                } else {
                    assert(head[i].uid != records[last].uid);
                }
            }
        }
        if well_formed_records(records, limit) {
            assert(well_formed_records(head, limit)) by {
                assert forall|i: int| 0 <= i < head.len() implies sound_record(
                    #[trigger] head[i],
                    limit,
                ) by {
                    assert(sound_record(records[i], limit));
                }
                assert forall|i: int, j: int| 0 <= i < j < head.len() implies (
                #[trigger] head[i]).uid != (#[trigger] head[j]).uid by {
                    assert(records[i].uid != records[j].uid);
                }
            }
            assert(sound_record(records[last], limit));
            assert(!holds_uid(head, records[last].uid)) by {
                assert forall|i: int| 0 <= i < head.len() implies (#[trigger] head[i]).uid
                    != records[last].uid by {
                    assert(records[i].uid != records[last].uid);
                }
            }
        }
    }
}

/// Once a prefix of the records fails to load, the whole sequence fails
/// with the same error.
pub proof fn lemma_restore_error_persists(records: Seq<SchemaData>, limit: nat, n: int)
    requires
        0 <= n <= records.len(),
        restore_outcome(records.take(n), limit) is Err,
    ensures
        restore_outcome(records, limit) == restore_outcome(records.take(n), limit),
    decreases records.len() - n,
{
    if n < records.len() {
        let next = records.take(n + 1);
        assert(next.drop_last() == records.take(n));
        lemma_restore_error_persists(records, limit, n + 1);
    } else {
        assert(records.take(n) == records);
    }
}

/// A uid that no record carries is counted zero times.
pub proof fn lemma_absent_uid_counts_zero(records: Seq<SchemaData>, uid: Identity)
    requires
        !holds_uid(records, uid),
    ensures
        count_uid(records, uid) == 0,
    decreases records.len(),
{
    if records.len() > 0 {
        let rest = records.drop_last();
        assert(records[records.len() - 1].uid != uid);
        assert forall|i: int| 0 <= i < rest.len() implies (#[trigger] rest[i]).uid != uid by {
            assert(records[i].uid != uid);
        }
        lemma_absent_uid_counts_zero(rest, uid);
    }
}

/// Where no uid occurs twice, a uid that some record carries is counted
/// exactly once.
pub proof fn lemma_present_uid_counts_one(records: Seq<SchemaData>, limit: nat, uid: Identity)
    requires
        well_formed_records(records, limit),
        holds_uid(records, uid),
    ensures
        count_uid(records, uid) == 1,
    decreases records.len(),
{
    let k = choose|k: int| 0 <= k < records.len() && (#[trigger] records[k]).uid == uid;
    let rest = records.drop_last();
    let last = records.len() - 1;
    assert forall|i: int| 0 <= i < rest.len() implies rest[i] == records[i] by {}
    if records[last].uid == uid {
        assert forall|i: int| 0 <= i < rest.len() implies (#[trigger] rest[i]).uid != uid by {
            assert(records[i].uid != records[last].uid);
        }
        lemma_absent_uid_counts_zero(rest, uid);
    } else {
        assert(k < last);
        assert(rest[k].uid == uid);
        assert(well_formed_records(rest, limit)) by {
            assert forall|i: int, j: int| 0 <= i < j < rest.len() implies (#[trigger] rest[i]).uid
                != (#[trigger] rest[j]).uid by {
                assert(records[i].uid != records[j].uid);
            }
        }
        lemma_present_uid_counts_one(rest, limit, uid);
    }
}

/// Registration keeps the invariant and only ever appends: every record
/// that stood before stands afterwards, unchanged and in the same place.
pub proof fn lemma_registration_appends(
    records: Seq<SchemaData>,
    limit: nat,
    deployer: Identity,
    schema: String,
    resolver: Option<Identity>,
    revocable: bool,
    levy: Option<Levy>,
)
    requires
        well_formed_records(records, limit),
    ensures
        ({
            let outcome = register_outcome(
                records,
                limit,
                schema_uid(deployer, schema@),
                deployer,
                schema,
                resolver,
                revocable,
                levy,
            );
            let after = records_after_register(records, outcome);
            &&& well_formed_records(after, limit)
            &&& after.len() >= records.len()
            &&& forall|i: int| 0 <= i < records.len() ==> after[i] == records[i]
        }),
{
    let uid = schema_uid(deployer, schema@);
    let outcome = register_outcome(
        records,
        limit,
        uid,
        deployer,
        schema,
        resolver,
        revocable,
        levy,
    );
    let after = records_after_register(records, outcome);
    if outcome is Ok {
        assert forall|i: int, j: int| 0 <= i < j < after.len() implies (#[trigger] after[i]).uid
            != (#[trigger] after[j]).uid by {
            if j == records.len() {
                assert(records[i].uid != uid);
            } else {
                assert(records[i].uid != records[j].uid);
            }
        }
    }
}

/// Registering the same deployer and content twice: the first call succeeds
/// when the identifier is free, and the record it creates carries the
/// derived identifier; the second call is refused with `AlreadyExists` and
/// changes nothing, whatever resolver, flag and levy it brings; exactly one
/// record stands under the identifier in the end.
pub proof fn lemma_duplicate_registration_rejected(
    records: Seq<SchemaData>,
    limit: nat,
    deployer: Identity,
    schema: String,
    resolver: Option<Identity>,
    revocable: bool,
    levy: Option<Levy>,
    resolver_again: Option<Identity>,
    revocable_again: bool,
    levy_again: Option<Levy>,
)
    requires
        well_formed_records(records, limit),
        valid_content(schema@, limit),
    ensures
        ({
            let uid = schema_uid(deployer, schema@);
            let first = register_outcome(
                records,
                limit,
                uid,
                deployer,
                schema,
                resolver,
                revocable,
                levy,
            );
            let between = records_after_register(records, first);
            let second = register_outcome(
                between,
                limit,
                uid,
                deployer,
                schema,
                resolver_again,
                revocable_again,
                levy_again,
            );
            let after = records_after_register(between, second);
            &&& !holds_uid(records, uid) ==> first == Ok::<SchemaData, RegistryError>(
                SchemaData { uid, schema, resolver, revocable, deployer, levy },
            )
            &&& second == Err::<SchemaData, RegistryError>(RegistryError::AlreadyExists)
            &&& after == between
            &&& count_uid(after, uid) == 1
        }),
{
    let uid = schema_uid(deployer, schema@);
    let first = register_outcome(records, limit, uid, deployer, schema, resolver, revocable, levy);
    let between = records_after_register(records, first);
    lemma_registration_appends(records, limit, deployer, schema, resolver, revocable, levy);
    if !holds_uid(records, uid) {
        assert(between[records.len() as int].uid == uid);
    } else {
        let k = choose|k: int| 0 <= k < records.len() && (#[trigger] records[k]).uid == uid;
        assert(between[k].uid == uid);
    }
    assert(holds_uid(between, uid));
    lemma_present_uid_counts_one(between, limit, uid);
}

/// The levy has no say in whether a registration is accepted: a schema
/// without levy and the same schema with a levy of amount zero in the native
/// unit fare alike, and no fee is owed under either.
pub proof fn lemma_zero_levy_accepted_like_none(
    records: Seq<SchemaData>,
    limit: nat,
    uid: Identity,
    deployer: Identity,
    schema: String,
    resolver: Option<Identity>,
    revocable: bool,
    recipient: Identity,
)
    ensures
        ({
            let zero = Some(Levy { amount: 0, asset: None, recipient });
            let bare = register_outcome(
                records,
                limit,
                uid,
                deployer,
                schema,
                resolver,
                revocable,
                None,
            );
            let with_zero = register_outcome(
                records,
                limit,
                uid,
                deployer,
                schema,
                resolver,
                revocable,
                zero,
            );
            &&& bare is Ok <==> with_zero is Ok
            &&& bare is Err ==> with_zero is Err && bare->Err_0 == with_zero->Err_0
            &&& bare is Ok ==> bare->Ok_0.levy == None::<Levy> && with_zero->Ok_0.levy == zero
            &&& fee_due(None) == fee_due(zero)
            &&& fee_due(zero) == None::<Levy>
        }),
{
}

/// The content bound is sharp: empty content and content one byte over the
/// bound are refused with `InvalidInput`, and content of exactly the bound
/// is accepted when its identifier is free.
pub proof fn lemma_content_bound_is_sharp(
    records: Seq<SchemaData>,
    limit: nat,
    uid: Identity,
    deployer: Identity,
    schema: String,
    resolver: Option<Identity>,
    revocable: bool,
    levy: Option<Levy>,
)
    ensures
        ({
            let size = content_bytes(schema@).len();
            let outcome = register_outcome(
                records,
                limit,
                uid,
                deployer,
                schema,
                resolver,
                revocable,
                levy,
            );
            &&& size == 0 ==> outcome == Err::<SchemaData, RegistryError>(
                RegistryError::InvalidInput,
            )
            &&& size == limit + 1 ==> outcome == Err::<SchemaData, RegistryError>(
                RegistryError::InvalidInput,
            )
            &&& size == limit && limit > 0 && !holds_uid(records, uid) ==> outcome is Ok
            &&& outcome == Err::<SchemaData, RegistryError>(RegistryError::InvalidInput) <==> (size
                == 0 || size > limit)
        }),
{
}

} // verus!
