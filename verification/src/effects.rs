//! What the execution of a transaction is answered with, and what is looked up in
//! its effects.

use sui_rpc::proto::sui::rpc::v2::changed_object;
use vstd::prelude::*;

use crate::address::{
    address_chars, address_text_round_trip, parse_address, parsed_address, RawId,
};
use crate::error::MarketError;
use crate::text::ends_with;

verus! {

/// What a transaction did to the identifier of an object.
#[derive(Debug, Clone, Copy, PartialEq, Eq, Structural)]
pub enum IdOperation {
    Unknown,
    Unchanged,
    Created,
    Deleted,
}

/// An object that a transaction changed.
#[derive(Debug)]
pub struct ChangedObject {
    pub object_id: Option<String>,
    pub object_type: Option<String>,
    /// The number of an [`IdOperation`].
    pub id_operation: Option<i32>,
}

/// Whether a transaction succeeded, and what it failed with.
#[derive(Debug)]
pub struct ExecutionStatus {
    pub success: bool,
    pub error: Option<String>,
}

/// The effects of a transaction.
#[derive(Debug)]
pub struct TransactionEffects {
    pub status: Option<ExecutionStatus>,
    pub changed_objects: Vec<ChangedObject>,
}

/// An executed transaction, as far as it was reported.
#[derive(Debug)]
pub struct ExecutedTransaction {
    pub effects: Option<TransactionEffects>,
}

/// The answer to the execution of a transaction.
#[derive(Debug)]
pub struct ExecutionReply {
    pub transaction: Option<ExecutedTransaction>,
}

/// The operation with the number `v`, if there is one.
pub open spec fn id_operation_of(v: i32) -> Option<IdOperation> {
    if v == 0 {
        Some(IdOperation::Unknown)
    } else if v == 1 {
        Some(IdOperation::Unchanged)
    } else if v == 2 {
        Some(IdOperation::Created)
    } else if v == 3 {
        Some(IdOperation::Deleted)
    } else {
        None
    }
}

/// The operation with the number `v`, if there is one.
///
/// Trusted: `TryFrom<i32>` of `sui_rpc`'s `changed_object::IdOperation` knows the
/// numbers 0 (unknown), 1 (none), 2 (created) and 3 (deleted).
#[verifier::external_body]
fn id_operation(v: i32) -> (r: Option<IdOperation>)
    ensures
        r == id_operation_of(v),
{
    match changed_object::IdOperation::try_from(v) {
        Ok(changed_object::IdOperation::Unknown) => Some(IdOperation::Unknown),
        Ok(changed_object::IdOperation::None) => Some(IdOperation::Unchanged),
        Ok(changed_object::IdOperation::Created) => Some(IdOperation::Created),
        Ok(changed_object::IdOperation::Deleted) => Some(IdOperation::Deleted),
        _ => None,
    }
}

impl ChangedObject {
    /// Whether the type of the object is known and ends with `suffix`.
    pub open spec fn has_type(self, suffix: Seq<char>) -> bool {
        self.object_type matches Some(t) && suffix.is_suffix_of(t@)
    }

    /// Whether the object was created by the transaction.
    pub open spec fn is_created(self) -> bool {
        self.id_operation matches Some(v) && id_operation_of(v) == Some(IdOperation::Created)
    }

    /// Whether the type of the object ends with `suffix`.
    fn type_ends_with(&self, suffix: &str) -> (r: bool)
        ensures
            r == self.has_type(suffix@),
    {
        match &self.object_type {
            Some(t) => ends_with(t.as_str(), suffix),
            None => false,
        }
    }

    /// Whether the object was created.
    fn created(&self) -> (r: bool)
        ensures
            r == self.is_created(),
    {
        match self.id_operation {
            Some(v) => match id_operation(v) {
                Some(op) => op == IdOperation::Created,
                None => false,
            },
            None => false,
        }
    }
}

impl ExecutionReply {
    /// Whether the answer holds effects that are not those of a failure.
    pub open spec fn succeeded(self) -> bool {
        &&& self.transaction matches Some(t)
        &&& t.effects matches Some(e)
        &&& e.status matches Some(s) ==> s.success
    }
}

/// The effects that an execution was answered with, if it succeeded.
pub fn executed_effects(reply: ExecutionReply) -> (r: Result<TransactionEffects, MarketError>)
    ensures
        match reply.transaction {
            None => r == Err::<TransactionEffects, MarketError>(MarketError::NoTransaction),
            Some(t) => match t.effects {
                None => r == Err::<TransactionEffects, MarketError>(MarketError::NoEffects),
                Some(e) => if reply.succeeded() {
                    r == Ok::<TransactionEffects, MarketError>(e)
                } else {
                    &&& r matches Err(MarketError::OnChainFailure { cause })
                    &&& cause@ == match e.status->0.error {
                        Some(text) => text@,
                        None => "unknown error"@,
                    }
                },
            },
        },
{
    let executed = match reply.transaction {
        Some(t) => t,
        None => return Err(MarketError::NoTransaction),
    };
    let effects = match executed.effects {
        Some(e) => e,
        None => return Err(MarketError::NoEffects),
    };
    if let Some(status) = &effects.status {
        if !status.success {
            let cause = match &status.error {
                Some(text) => text.clone(),
                None => "unknown error".to_owned(),
            };
            return Err(MarketError::OnChainFailure { cause });
        }
    }
    Ok(effects)
}

/// The first created object whose type ends with `suffix`.
pub open spec fn created_object(objects: Seq<ChangedObject>, suffix: Seq<char>) -> Option<
    ChangedObject,
>
    decreases objects.len(),
{
    if objects.len() == 0 {
        None
    } else if objects.first().has_type(suffix) && objects.first().is_created() {
        Some(objects.first())
    } else {
        created_object(objects.drop_first(), suffix)
    }
}

/// The first object whose type ends with `suffix`.
pub open spec fn object_of_type(objects: Seq<ChangedObject>, suffix: Seq<char>) -> Option<
    ChangedObject,
>
    decreases objects.len(),
{
    if objects.len() == 0 {
        None
    } else if objects.first().has_type(suffix) {
        Some(objects.first())
    } else {
        object_of_type(objects.drop_first(), suffix)
    }
}

/// What a look-up returns, given the object that it found: the address in its
/// identifier, `missing` if there is no object or it has no identifier, or
/// `invalid` if the identifier is no address.
pub open spec fn found_id(
    found: Option<ChangedObject>,
    missing: MarketError,
    invalid: MarketError,
    r: Result<RawId, MarketError>,
) -> bool {
    match found {
        None => r == Err::<RawId, MarketError>(missing),
        Some(object) => match object.object_id {
            None => r == Err::<RawId, MarketError>(missing),
            Some(s) => match parsed_address(s@) {
                Some(id) => r matches Ok(x) && x@ == id,
                None => r == Err::<RawId, MarketError>(invalid),
            },
        },
    }
}

/// The address of the first created object whose type ends with `type_suffix`.
pub fn find_created(effects: &TransactionEffects, type_suffix: &str) -> (r: Result<
    RawId,
    MarketError,
>)
    ensures
        found_id(
            created_object(effects.changed_objects@, type_suffix@),
            MarketError::CreatedNotFound,
            MarketError::InvalidCreatedId,
            r,
        ),
{
    let objects = &effects.changed_objects;
    let mut i: usize = 0;
    proof {
        assert(objects@.skip(0) =~= objects@);
    }
    while i < objects.len()
        invariant
            *objects == effects.changed_objects,
            i <= objects@.len(),
            created_object(effects.changed_objects@, type_suffix@) == created_object(
                objects@.skip(i as int),
                type_suffix@,
            ),
        decreases objects@.len() - i,
    {
        let object = &objects[i];
        proof {
            assert(objects@.skip(i as int).drop_first() =~= objects@.skip(i + 1));
        }
        if object.type_ends_with(type_suffix) && object.created() {
            return match &object.object_id {
                None => Err(MarketError::CreatedNotFound),
                Some(s) => match parse_address(s.as_str()) {
                    Some(id) => Ok(id),
                    None => Err(MarketError::InvalidCreatedId),
                },
            };
        }
        i += 1;
    }
    Err(MarketError::CreatedNotFound)
}

/// The address of the first object whose type is that of an access token.
pub fn find_access_token(effects: &TransactionEffects) -> (r: Result<RawId, MarketError>)
    ensures
        found_id(
            object_of_type(effects.changed_objects@, "::marketplace::AccessToken"@),
            MarketError::TokenNotFound,
            MarketError::InvalidMintedId,
            r,
        ),
{
    let objects = &effects.changed_objects;
    let mut i: usize = 0;
    proof {
        assert(objects@.skip(0) =~= objects@);
    }
    while i < objects.len()
        invariant
            *objects == effects.changed_objects,
            i <= objects@.len(),
            object_of_type(effects.changed_objects@, "::marketplace::AccessToken"@)
                == object_of_type(objects@.skip(i as int), "::marketplace::AccessToken"@),
        decreases objects@.len() - i,
    {
        let object = &objects[i];
        proof {
            assert(objects@.skip(i as int).drop_first() =~= objects@.skip(i + 1));
        }
        if object.type_ends_with("::marketplace::AccessToken") {
            return match &object.object_id {
                None => Err(MarketError::TokenNotFound),
                Some(s) => match parse_address(s.as_str()) {
                    Some(id) => Ok(id),
                    None => Err(MarketError::InvalidMintedId),
                },
            };
        }
        i += 1;
    }
    Err(MarketError::TokenNotFound)
}

/// The first created object of a type is found, whatever stands behind it; without one,
/// none is.
pub proof fn the_first_created_object_is_found(
    objects: Seq<ChangedObject>,
    suffix: Seq<char>,
    i: int,
)
    ensures
        0 <= i < objects.len() && objects[i].has_type(suffix) && objects[i].is_created() && (forall|
            j: int,
        |
            0 <= j < i ==> !((#[trigger] objects[j]).has_type(suffix) && objects[j].is_created()))
            ==> created_object(objects, suffix) == Some(objects[i]),
        (forall|j: int|
            0 <= j < objects.len() ==> !((#[trigger] objects[j]).has_type(suffix)
                && objects[j].is_created())) ==> created_object(objects, suffix) is None,
    decreases objects.len(),
{
    if objects.len() > 0 {
        let rest = objects.drop_first();
        the_first_created_object_is_found(rest, suffix, i - 1);
        assert forall|j: int| 0 <= j < rest.len() implies #[trigger] rest[j] == objects[j + 1] by {}
    }
}

/// The first object of a type is found, whatever was done to it and whatever stands behind
/// it; without one, none is.
pub proof fn the_first_object_of_a_type_is_found(
    objects: Seq<ChangedObject>,
    suffix: Seq<char>,
    i: int,
)
    ensures
        0 <= i < objects.len() && objects[i].has_type(suffix) && (forall|j: int|
            0 <= j < i ==> !(#[trigger] objects[j]).has_type(suffix)) ==> object_of_type(
            objects,
            suffix,
        ) == Some(objects[i]),
        (forall|j: int| 0 <= j < objects.len() ==> !(#[trigger] objects[j]).has_type(suffix))
            ==> object_of_type(objects, suffix) is None,
    decreases objects.len(),
{
    if objects.len() > 0 {
        let rest = objects.drop_first();
        the_first_object_of_a_type_is_found(rest, suffix, i - 1);
        assert forall|j: int| 0 <= j < rest.len() implies #[trigger] rest[j] == objects[j + 1] by {}
    }
}

/// An object has a type where it was reported and ends with the given text, and was created
/// where its operation has the number of a creation.
pub proof fn objects_are_known_by_type_and_operation(
    object: ChangedObject,
    head: Seq<char>,
    suffix: Seq<char>,
)
    ensures
        object.object_type is None ==> !object.has_type(suffix),
        object.object_type matches Some(t) && t@ == head + suffix ==> object.has_type(suffix),
        object.has_type(suffix) ==> (object.object_type matches Some(t) && suffix.len() <= t@.len()
            && t@.skip(t@.len() - suffix.len()) == suffix),
        object.is_created() <==> object.id_operation == Some(2i32),
{
    assert((head + suffix).skip(head.len() as int) =~= suffix);
}

/// An object that was found is told of by the address that its identifier writes; an object
/// without an identifier counts as missing.
pub proof fn found_objects_are_told_of_by_their_address(
    object: ChangedObject,
    id: Seq<u8>,
    missing: MarketError,
    invalid: MarketError,
    r: Result<RawId, MarketError>,
)
    requires
        found_id(Some(object), missing, invalid, r),
        id.len() == 32,
    ensures
        object.object_id matches Some(s) && s@ == address_chars(id) ==> (r matches Ok(x) && x@
            == id),
        object.object_id is None ==> r == Err::<RawId, MarketError>(missing),
        object.object_id matches Some(s) && parsed_address(s@) is None ==> r == Err::<
            RawId,
            MarketError,
        >(invalid),
{
    address_text_round_trip(id);
}

/// Without an object, a look-up fails as for a missing one.
pub proof fn nothing_found_is_missing(
    missing: MarketError,
    invalid: MarketError,
    r: Result<RawId, MarketError>,
)
    requires
        found_id(None, missing, invalid, r),
    ensures
        r == Err::<RawId, MarketError>(missing),
{
}

/// An execution succeeded if its effects came and do not say that it failed; effects
/// without a status do not say so.
pub proof fn executions_fail_by_their_status(reply: ExecutionReply)
    ensures
        reply.transaction is None ==> !reply.succeeded(),
        reply.transaction matches Some(t) && t.effects is None ==> !reply.succeeded(),
        reply.transaction matches Some(t) && t.effects matches Some(e) && e.status is None
            ==> reply.succeeded(),
        reply.transaction matches Some(t) ==> (t.effects matches Some(e) ==> (e.status matches Some(
            s,
        ) ==> (reply.succeeded() <==> s.success))),
{
}

}
