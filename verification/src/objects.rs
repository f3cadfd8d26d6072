//! The answers to requests for objects, and what is read from them.

use vstd::prelude::*;

use crate::address::{
    address_chars, address_text_round_trip, parse_address, parsed_address, RawId,
};
use crate::error::MarketError;
use crate::models::{
    access_token_of, access_token_round_trip, decode_access_token, decode_marketplace,
    decode_service_listing, marketplace_of, marketplace_round_trip, service_listing_of,
    service_listing_round_trip, AccessToken, AccessTokenView, MarketplaceObject,
    MarketplaceObjectView, ServiceListing, ServiceListingView,
};

verus! {

/// A value by its bytes, where they were sent.
#[derive(Debug)]
pub struct BcsValue {
    pub value: Option<Vec<u8>>,
}

impl BcsValue {
    /// The bytes, where they are there, of a value that is there.
    pub open spec fn bytes(v: Option<BcsValue>) -> Option<Seq<u8>> {
        match v {
            Some(BcsValue { value: Some(b) }) => Some(b@),
            _ => None,
        }
    }

    /// The bytes, where they are there, of a value that is there.
    pub fn get(v: &Option<BcsValue>) -> (r: Option<&Vec<u8>>)
        ensures
            match r {
                Some(b) => BcsValue::bytes(*v) == Some(b@),
                None => BcsValue::bytes(*v) is None,
            },
    {
        match v {
            Some(contents) => match &contents.value {
                Some(b) => Some(b),
                None => None,
            },
            None => None,
        }
    }
}

/// An object, as far as it was reported.
#[derive(Debug)]
pub struct ObjectRecord {
    pub contents: Option<BcsValue>,
}

/// The answer to a request for an object.
#[derive(Debug)]
pub enum ObjectReply {
    /// The request failed.
    Failed,
    /// The request was answered, with the object or without one.
    Answered(Option<ObjectRecord>),
}

impl ObjectReply {
    /// The bytes of the object, or why there are none.
    pub open spec fn contents(self) -> Result<Seq<u8>, MarketError> {
        match self {
            ObjectReply::Failed => Err(MarketError::ObjectRpcFailed),
            ObjectReply::Answered(None) => Err(MarketError::ObjectNotFound),
            ObjectReply::Answered(Some(object)) => match BcsValue::bytes(object.contents) {
                Some(b) => Ok(b),
                None => Err(MarketError::NoContents),
            },
        }
    }

    /// The listing that was asked for, or why there is none.
    pub open spec fn listing(self) -> Result<ServiceListingView, MarketError> {
        match self.contents() {
            Ok(b) => match service_listing_of(b) {
                Some(v) => Ok(v),
                None => Err(MarketError::MalformedObject),
            },
            Err(e) => Err(e),
        }
    }

    /// The access token that was asked for, or why there is none.
    pub open spec fn token(self) -> Result<AccessTokenView, MarketError> {
        match self.contents() {
            Ok(b) => match access_token_of(b) {
                Some(v) => Ok(v),
                None => Err(MarketError::MalformedObject),
            },
            Err(e) => Err(e),
        }
    }

    /// The marketplace that was asked for, or why there is none.
    pub open spec fn marketplace(self) -> Result<MarketplaceObjectView, MarketError> {
        match self.contents() {
            Ok(b) => match marketplace_of(b) {
                Some(v) => Ok(v),
                None => Err(MarketError::MalformedObject),
            },
            Err(e) => Err(e),
        }
    }

    /// The bytes of the object, or why there are none.
    pub fn read_contents(&self) -> (r: Result<&Vec<u8>, MarketError>)
        ensures
            match r {
                Ok(b) => self.contents() == Ok::<Seq<u8>, MarketError>(b@),
                Err(e) => self.contents() == Err::<Seq<u8>, MarketError>(e),
            },
    {
        match self {
            ObjectReply::Failed => Err(MarketError::ObjectRpcFailed),
            ObjectReply::Answered(None) => Err(MarketError::ObjectNotFound),
            ObjectReply::Answered(Some(object)) => match BcsValue::get(&object.contents) {
                Some(b) => Ok(b),
                None => Err(MarketError::NoContents),
            },
        }
    }

    /// The listing that was asked for.
    pub fn read_listing(&self) -> (r: Result<ServiceListing, MarketError>)
        ensures
            match r {
                Ok(l) => self.listing() == Ok::<ServiceListingView, MarketError>(l@),
                Err(e) => self.listing() == Err::<ServiceListingView, MarketError>(e),
            },
    {
        let bytes = match self.read_contents() {
            Ok(b) => b,
            Err(e) => return Err(e),
        };
        match decode_service_listing(bytes.as_slice()) {
            Ok(listing) => {
                proof {
                    service_listing_round_trip(listing@);
                }
                Ok(listing)
            },
            Err(_) => Err(MarketError::MalformedObject),
        }
    }

    /// The access token that was asked for.
    pub fn read_token(&self) -> (r: Result<AccessToken, MarketError>)
        ensures
            match r {
                Ok(t) => self.token() == Ok::<AccessTokenView, MarketError>(t@),
                Err(e) => self.token() == Err::<AccessTokenView, MarketError>(e),
            },
    {
        let bytes = match self.read_contents() {
            Ok(b) => b,
            Err(e) => return Err(e),
        };
        match decode_access_token(bytes.as_slice()) {
            Ok(token) => {
                proof {
                    access_token_round_trip(token@);
                }
                Ok(token)
            },
            Err(_) => Err(MarketError::MalformedObject),
        }
    }

    /// The marketplace that was asked for.
    pub fn read_marketplace(&self) -> (r: Result<MarketplaceObject, MarketError>)
        ensures
            match r {
                Ok(m) => self.marketplace() == Ok::<MarketplaceObjectView, MarketError>(m@),
                Err(e) => self.marketplace() == Err::<MarketplaceObjectView, MarketError>(e),
            },
    {
        let bytes = match self.read_contents() {
            Ok(b) => b,
            Err(e) => return Err(e),
        };
        match decode_marketplace(bytes.as_slice()) {
            Ok(market) => {
                proof {
                    marketplace_round_trip(market@);
                }
                Ok(market)
            },
            Err(_) => Err(MarketError::MalformedObject),
        }
    }

    /// The bag of the marketplace that was asked for.
    pub fn read_bag_id(&self) -> (r: Result<RawId, MarketError>)
        ensures
            match self.marketplace() {
                Ok(m) => r matches Ok(id) && id@ == m.bag_id,
                Err(e) => r == Err::<RawId, MarketError>(e),
            },
    {
        match self.read_marketplace() {
            Ok(market) => Ok(market.listings.id),
            Err(e) => Err(e),
        }
    }
}

/// One item of the stream of the dynamic fields of a bag: the text of an error, or
/// the child of a field, where it has one.
pub type FieldItem = Result<Option<String>, String>;

/// The identifiers that `ids` hold.
pub open spec fn id_views(ids: Seq<RawId>) -> Seq<Seq<u8>> {
    ids.map_values(|id: RawId| id@)
}

/// The child that an item names, if it names one, or what is wrong with the item.
pub open spec fn child_of(item: FieldItem) -> Result<Option<Seq<u8>>, MarketError> {
    match item {
        Err(cause) => Err(MarketError::FieldStream { cause }),
        Ok(None) => Ok(None),
        Ok(Some(child_id)) => match parsed_address(child_id@) {
            Some(id) => Ok(Some(id)),
            None => Err(MarketError::InvalidChildId { child_id }),
        },
    }
}

/// `ids` after the next item, or what is wrong with the item.
pub open spec fn with_child(ids: Seq<Seq<u8>>, item: FieldItem) -> Result<
    Seq<Seq<u8>>,
    MarketError,
> {
    match child_of(item) {
        Ok(Some(id)) => Ok(ids.push(id)),
        Ok(None) => Ok(ids),
        Err(e) => Err(e),
    }
}

/// What the items of a stream come to, taken one after the other until one is wrong.
pub open spec fn children(items: Seq<FieldItem>) -> Result<Seq<Seq<u8>>, MarketError>
    decreases items.len(),
{
    if items.len() == 0 {
        Ok(seq![])
    } else {
        match children(items.drop_last()) {
            Ok(ids) => with_child(ids, items.last()),
            Err(e) => Err(e),
        }
    }
}

/// The children that items name, in the order of the items.
pub open spec fn named_children(items: Seq<FieldItem>) -> Seq<Seq<u8>>
    decreases items.len(),
{
    if items.len() == 0 {
        seq![]
    } else {
        let before = named_children(items.drop_last());
        match child_of(items.last()) {
            Ok(Some(id)) => before.push(id),
            _ => before,
        }
    }
}

/// Takes the next item of the stream of the dynamic fields of a bag: the child that
/// it names is added to `ids`.
pub fn accept_child(ids: &mut Vec<RawId>, item: FieldItem) -> (r: Result<(), MarketError>)
    ensures
        match with_child(id_views(old(ids)@), item) {
            Ok(after) => r == Ok::<(), MarketError>(()) && id_views(final(ids)@) == after,
            Err(e) => r == Err::<(), MarketError>(e) && final(ids)@ == old(ids)@,
        },
        old(ids)@.is_prefix_of(final(ids)@),
{
    match item {
        Err(cause) => Err(MarketError::FieldStream { cause }),
        Ok(None) => Ok(()),
        Ok(Some(child_id)) => match parse_address(child_id.as_str()) {
            Some(id) => {
                ids.push(id);
                proof {
                    assert(id_views(ids@) =~= id_views(old(ids)@).push(id@));
                }
                Ok(())
            },
            None => Err(MarketError::InvalidChildId { child_id }),
        },
    }
}

/// One more item is taken after those that came before it, unless one of them was wrong.
pub proof fn items_are_taken_in_turn(items: Seq<FieldItem>, item: FieldItem)
    ensures
        children(items.push(item)) == match children(items) {
            Ok(ids) => with_child(ids, item),
            Err(e) => Err(e),
        },
{
    assert(items.push(item).drop_last() =~= items);
}

/// A stream gives the children of all of its items, in their order, if and only if none
/// of its items is wrong.
pub proof fn children_are_those_of_all_items(items: Seq<FieldItem>)
    ensures
        children(items) is Ok <==> forall|i: int|
            0 <= i < items.len() ==> child_of(#[trigger] items[i]) is Ok,
        children(items) matches Ok(ids) ==> ids == named_children(items),
    decreases items.len(),
{
    if items.len() > 0 {
        let init = items.drop_last();
        children_are_those_of_all_items(init);
        assert(items.last() == items[items.len() - 1]);
        if forall|i: int| 0 <= i < items.len() ==> child_of(#[trigger] items[i]) is Ok {
            assert forall|i: int| 0 <= i < init.len() implies child_of(
                #[trigger] init[i],
            ) is Ok by {
                assert(init[i] == items[i]);
            }
        }
        if children(items) is Ok {
            assert forall|i: int| 0 <= i < items.len() implies child_of(
                #[trigger] items[i],
            ) is Ok by {
                if i < init.len() {
                    assert(init[i] == items[i]);
                }
            }
        }
    }
}

/// A stream fails with what is wrong with the first of its items that is wrong.
pub proof fn the_first_wrong_item_decides(items: Seq<FieldItem>, i: int)
    requires
        0 <= i < items.len(),
        child_of(items[i]) is Err,
        forall|j: int| 0 <= j < i ==> child_of(#[trigger] items[j]) is Ok,
    ensures
        children(items) == Err::<Seq<Seq<u8>>, MarketError>(child_of(items[i])->Err_0),
    decreases items.len(),
{
    let init = items.drop_last();
    if i < init.len() {
        assert forall|j: int| 0 <= j < i implies child_of(#[trigger] init[j]) is Ok by {
            assert(init[j] == items[j]);
        }
        the_first_wrong_item_decides(init, i);
    } else {
        assert forall|j: int| 0 <= j < init.len() implies child_of(#[trigger] init[j]) is Ok by {
            assert(init[j] == items[j]);
        }
        children_are_those_of_all_items(init);
    }
}

/// What was sent is what is read: an object whose contents are the bytes of a listing, a
/// token or a marketplace is read as it.
pub proof fn objects_are_read_as_they_were_sent(
    reply: ObjectReply,
    bytes: Vec<u8>,
    listing: ServiceListingView,
    token: AccessTokenView,
    market: MarketplaceObjectView,
)
    requires
        reply matches ObjectReply::Answered(Some(object)) && object.contents matches Some(v)
            && v.value == Some(bytes),
    ensures
        reply.contents() == Ok::<Seq<u8>, MarketError>(bytes@),
        listing.encodable() && bytes@ == listing.bytes() ==> reply.listing() == Ok::<
            ServiceListingView,
            MarketError,
        >(listing),
        token.encodable() && bytes@ == token.bytes() ==> reply.token() == Ok::<
            AccessTokenView,
            MarketError,
        >(token),
        market.encodable() && bytes@ == market.bytes() ==> reply.marketplace() == Ok::<
            MarketplaceObjectView,
            MarketError,
        >(market),
{
    if listing.encodable() {
        service_listing_round_trip(listing);
    }
    if token.encodable() {
        access_token_round_trip(token);
    }
    if market.encodable() {
        marketplace_round_trip(market);
    }
}

/// What is read was sent: its bytes are the contents of the object.
pub proof fn objects_were_sent_as_they_are_read(reply: ObjectReply)
    ensures
        reply.listing() matches Ok(v) ==> v.encodable() && reply.contents() == Ok::<
            Seq<u8>,
            MarketError,
        >(v.bytes()),
        reply.token() matches Ok(v) ==> v.encodable() && reply.contents() == Ok::<
            Seq<u8>,
            MarketError,
        >(v.bytes()),
        reply.marketplace() matches Ok(v) ==> v.encodable() && reply.contents() == Ok::<
            Seq<u8>,
            MarketError,
        >(v.bytes()),
{
}

/// An object that was not sent is told of by the step that it was missed at.
pub proof fn objects_that_were_not_sent(reply: ObjectReply)
    ensures
        reply == ObjectReply::Failed ==> reply.contents() == Err::<Seq<u8>, MarketError>(
            MarketError::ObjectRpcFailed,
        ),
        reply == ObjectReply::Answered(None) ==> reply.contents() == Err::<Seq<u8>, MarketError>(
            MarketError::ObjectNotFound,
        ),
        reply matches ObjectReply::Answered(Some(object)) && object.contents is None
            ==> reply.contents() == Err::<Seq<u8>, MarketError>(MarketError::NoContents),
        reply matches ObjectReply::Answered(Some(object)) && object.contents matches Some(v)
            && v.value is None ==> reply.contents() == Err::<Seq<u8>, MarketError>(
            MarketError::NoContents,
        ),
        reply.contents() matches Err(e) ==> reply.listing() == Err::<
            ServiceListingView,
            MarketError,
        >(e) && reply.token() == Err::<AccessTokenView, MarketError>(e) && reply.marketplace()
            == Err::<MarketplaceObjectView, MarketError>(e),
{
}

/// Contents that are the bytes of no such object are told of as malformed.
pub proof fn malformed_objects_are_told_of(reply: ObjectReply, bytes: Seq<u8>)
    requires
        reply.contents() == Ok::<Seq<u8>, MarketError>(bytes),
    ensures
        (forall|v: ServiceListingView| v.encodable() ==> #[trigger] v.bytes() != bytes)
            ==> reply.listing() == Err::<ServiceListingView, MarketError>(
            MarketError::MalformedObject,
        ),
        (forall|v: AccessTokenView| v.encodable() ==> #[trigger] v.bytes() != bytes)
            ==> reply.token() == Err::<AccessTokenView, MarketError>(MarketError::MalformedObject),
        (forall|v: MarketplaceObjectView| v.encodable() ==> #[trigger] v.bytes() != bytes)
            ==> reply.marketplace() == Err::<MarketplaceObjectView, MarketError>(
            MarketError::MalformedObject,
        ),
{
}

/// An item names the child whose address it writes; one that writes no address, or that is
/// an error, is told of as it is.
pub proof fn items_name_the_child_that_they_write(child: String, cause: String, id: Seq<u8>)
    requires
        id.len() == 32,
    ensures
        child@ == address_chars(id) ==> child_of(Ok(Some(child))) == Ok::<
            Option<Seq<u8>>,
            MarketError,
        >(Some(id)),
        parsed_address(child@) is None ==> child_of(Ok(Some(child))) == Err::<
            Option<Seq<u8>>,
            MarketError,
        >(MarketError::InvalidChildId { child_id: child }),
        child_of(Err(cause)) == Err::<Option<Seq<u8>>, MarketError>(
            MarketError::FieldStream { cause },
        ),
        child_of(Ok(None)) == Ok::<Option<Seq<u8>>, MarketError>(None),
{
    address_text_round_trip(id);
}

/// The children of items are those of the first ones, then those of the others; one item
/// has the child that it names.
pub proof fn children_stand_in_the_order_of_items(
    a: Seq<FieldItem>,
    b: Seq<FieldItem>,
    item: FieldItem,
)
    ensures
        named_children(a + b) == named_children(a) + named_children(b),
        forall|id: Seq<u8>|
            child_of(item) == Ok::<Option<Seq<u8>>, MarketError>(Some(id)) ==> #[trigger]
                named_children(seq![item]) == seq![id],
        child_of(item) == Ok::<Option<Seq<u8>>, MarketError>(None) ==> named_children(
            seq![item],
        ).len() == 0,
    decreases b.len(),
{
    let one = seq![item];
    assert(one.drop_last() =~= seq![]);
    assert(named_children(one.drop_last()) =~= seq![]);
    assert(one.last() == item);
    if b.len() == 0 {
        assert(a + b =~= a);
    } else {
        children_stand_in_the_order_of_items(a, b.drop_last(), item);
        assert((a + b).drop_last() =~= a + b.drop_last());
        assert((a + b).last() == b.last());
    }
}

}
