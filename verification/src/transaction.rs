//! Move calls, and the transactions that make them.

use sui_sdk_types::{Address, Identifier, TypeTag};
use sui_transaction_builder::{Argument, Function, ObjectInput, TransactionBuilder};
use vstd::prelude::*;

use crate::address::RawId;
use crate::encoding::{
    u64_bytes, u64_bytes_unique, vector_bytes, vector_bytes_unique, MAX_SEQUENCE_LENGTH,
};

verus! {

/// One argument of a Move call.
#[derive(Debug)]
pub enum CallArg {
    /// An object.
    Object(RawId),
    /// The coin that the gas is paid with.
    Gas,
    /// A Move `u64`.
    U64(u64),
    /// A Move `vector<u8>`.
    Bytes(Vec<u8>),
    /// A Move `ID` or `address`.
    Id(RawId),
}

/// What an argument is in a transaction.
pub enum CallInput {
    Gas,
    Object(Seq<u8>),
    /// A value, by its bytes.
    Pure(Seq<u8>),
}

/// A Move call of a transaction.
pub struct CallRecord {
    pub package: Seq<u8>,
    pub module: Seq<char>,
    pub function: Seq<char>,
    pub type_args: Seq<Seq<char>>,
    pub args: Seq<CallInput>,
}

impl CallArg {
    /// What the argument is in a transaction.
    pub open spec fn input(self) -> CallInput {
        match self {
            CallArg::Object(id) => CallInput::Object(id@),
            CallArg::Gas => CallInput::Gas,
            CallArg::U64(v) => CallInput::Pure(u64_bytes(v)),
            CallArg::Bytes(v) => CallInput::Pure(vector_bytes(v@)),
            CallArg::Id(id) => CallInput::Pure(id@),
        }
    }

    /// Whether the argument has bytes at all.
    pub open spec fn encodable(self) -> bool {
        self matches CallArg::Bytes(v) ==> v@.len() <= MAX_SEQUENCE_LENGTH
    }
}

/// What the arguments are in a transaction, in their order.
pub open spec fn call_inputs(args: Seq<CallArg>) -> Seq<CallInput> {
    args.map_values(|a: CallArg| a.input())
}

/// Whether `c` can stand anywhere in a Move identifier.
pub open spec fn is_identifier_char(c: char) -> bool {
    'a' <= c <= 'z' || 'A' <= c <= 'Z' || '0' <= c <= '9' || c == '_'
}

/// Whether `s` is a Move identifier.
pub open spec fn is_identifier(s: Seq<char>) -> bool {
    &&& 1 <= s.len() <= 128
    &&& !('0' <= s[0] <= '9')
    &&& s[0] == '_' ==> s.len() > 1
    &&& forall|i: int| 0 <= i < s.len() ==> is_identifier_char(#[trigger] s[i])
}

/// The Move type that `text` names, in its canonical form, if it names one.
pub uninterp spec fn type_tag_of(text: Seq<char>) -> Option<Seq<char>>;

/// A transaction that is being put together.
#[verifier::external_type_specification]
#[verifier::external_body]
pub struct ExTransactionBuilder(TransactionBuilder);

/// The handle of an argument of a transaction.
#[verifier::external_type_specification]
#[verifier::external_body]
pub struct ExArgument(Argument);

/// The sender of a transaction, where it was set.
pub uninterp spec fn builder_sender(b: TransactionBuilder) -> Option<Seq<u8>>;

/// The gas budget of a transaction, where it was set.
pub uninterp spec fn builder_gas_budget(b: TransactionBuilder) -> Option<u64>;

/// The input that a transaction holds under a handle, if it holds one there.
pub uninterp spec fn builder_input(b: TransactionBuilder, a: Argument) -> Option<CallInput>;

/// The Move calls of a transaction, in their order; each argument is the input that
/// the transaction held under its handle when the call was added.
pub uninterp spec fn builder_calls(b: TransactionBuilder) -> Seq<CallRecord>;

/// `b` is `a` with one more input, which stands under `arg`.
pub open spec fn input_added(
    a: TransactionBuilder,
    b: TransactionBuilder,
    arg: Argument,
    input: CallInput,
) -> bool {
    &&& builder_input(b, arg) == Some(input)
    &&& forall|x: Argument|
        (#[trigger] builder_input(a, x)) is Some ==> builder_input(b, x) == builder_input(a, x)
    &&& builder_calls(b) == builder_calls(a)
    &&& builder_sender(b) == builder_sender(a)
    &&& builder_gas_budget(b) == builder_gas_budget(a)
}

/// Whether `text` names a Move type; its canonical form, if so.
///
/// Trusted: `<sui_sdk_types::TypeTag as FromStr>::from_str` decides by the text
/// alone.
#[verifier::external_body]
pub(crate) fn parse_type_tag(text: &str) -> (r: Option<String>)
    ensures
        match r {
            Some(canonical) => type_tag_of(text@) == Some(canonical@),
            None => type_tag_of(text@) is None,
        },
{
    text.parse::<TypeTag>().ok().map(|t| t.to_string())
}

/// A transaction without sender, budget, inputs and calls.
///
/// Trusted: `TransactionBuilder::new` makes an empty one.
#[verifier::external_body]
fn new_builder() -> (b: TransactionBuilder)
    ensures
        builder_sender(b) is None,
        builder_gas_budget(b) is None,
        builder_calls(b) == Seq::<CallRecord>::empty(),
{
    TransactionBuilder::new()
}

/// Sets the sender.
///
/// Trusted: `TransactionBuilder::set_sender` sets the sender and nothing else.
#[verifier::external_body]
fn set_sender(b: &mut TransactionBuilder, sender: &RawId)
    ensures
        builder_sender(*final(b)) == Some(sender@),
        builder_gas_budget(*final(b)) == builder_gas_budget(*old(b)),
        builder_calls(*final(b)) == builder_calls(*old(b)),
        forall|x: Argument| #[trigger]
            builder_input(*final(b), x) == builder_input(*old(b), x),
{
    b.set_sender(Address::new(*sender))
}

/// Sets the gas budget.
///
/// Trusted: `TransactionBuilder::set_gas_budget` sets the budget and nothing else.
#[verifier::external_body]
fn set_gas_budget(b: &mut TransactionBuilder, budget: u64)
    ensures
        builder_gas_budget(*final(b)) == Some(budget),
        builder_sender(*final(b)) == builder_sender(*old(b)),
        builder_calls(*final(b)) == builder_calls(*old(b)),
        forall|x: Argument| #[trigger]
            builder_input(*final(b), x) == builder_input(*old(b), x),
{
    b.set_gas_budget(budget)
}

/// Adds an object by its identifier.
///
/// Trusted: `TransactionBuilder::object` gives the handle under which the
/// transaction holds the object, a new one or the one that it has already, and
/// keeps all other inputs.
#[verifier::external_body]
fn add_object(b: &mut TransactionBuilder, id: &RawId) -> (arg: Argument)
    ensures
        input_added(*old(b), *final(b), arg, CallInput::Object(id@)),
{
    b.object(ObjectInput::new(Address::new(*id)))
}

/// Adds the gas coin.
///
/// Trusted: `TransactionBuilder::gas` gives the handle of the gas coin and keeps
/// all other inputs.
#[verifier::external_body]
fn add_gas(b: &mut TransactionBuilder) -> (arg: Argument)
    ensures
        input_added(*old(b), *final(b), arg, CallInput::Gas),
{
    b.gas()
}

/// Adds an integer.
///
/// Trusted: `TransactionBuilder::pure` gives a handle under which the transaction
/// holds the BCS bytes of the integer, and keeps all other inputs.
#[verifier::external_body]
fn add_u64(b: &mut TransactionBuilder, value: u64) -> (arg: Argument)
    ensures
        input_added(*old(b), *final(b), arg, CallInput::Pure(u64_bytes(value))),
{
    b.pure(&value)
}

/// Adds a byte vector.
///
/// Trusted: `TransactionBuilder::pure` gives a handle under which the transaction
/// holds the BCS bytes of the vector, and keeps all other inputs. It panics on a
/// vector that is too long for the format.
#[verifier::external_body]
fn add_bytes(b: &mut TransactionBuilder, value: &Vec<u8>) -> (arg: Argument)
    requires
        value@.len() <= MAX_SEQUENCE_LENGTH,
    ensures
        input_added(*old(b), *final(b), arg, CallInput::Pure(vector_bytes(value@))),
{
    b.pure(value)
}

/// Adds an identifier as a value.
///
/// Trusted: `TransactionBuilder::pure` gives a handle under which the transaction
/// holds the 32 bytes of the identifier, and keeps all other inputs.
#[verifier::external_body]
fn add_id(b: &mut TransactionBuilder, id: &RawId) -> (arg: Argument)
    ensures
        input_added(*old(b), *final(b), arg, CallInput::Pure(id@)),
{
    b.pure(id)
}

/// What the handles `args` stand for in a transaction.
pub open spec fn resolved(b: TransactionBuilder, args: Seq<Argument>) -> Seq<CallInput> {
    args.map_values(|a: Argument| builder_input(b, a)->0)
}

/// The canonical forms of Move types.
pub open spec fn canonical_types(types: Seq<String>) -> Seq<Seq<char>> {
    types.map_values(|t: String| type_tag_of(t@)->0)
}

/// Adds a Move call.
///
/// Trusted: `TransactionBuilder::move_call` adds the call behind those that the
/// transaction has already, and changes nothing else. `Identifier::new` and the
/// parser of `TypeTag` accept the names that are asked for here.
#[verifier::external_body]
fn add_move_call(
    b: &mut TransactionBuilder,
    package: &RawId,
    module: &str,
    function: &str,
    types: &Vec<String>,
    args: Vec<Argument>,
)
    requires
        is_identifier(module@),
        is_identifier(function@),
        forall|i: int| 0 <= i < types@.len() ==> type_tag_of((#[trigger] types@[i])@) is Some,
        forall|i: int|
            0 <= i < args@.len() ==> builder_input(*old(b), #[trigger] args@[i]) is Some,
    ensures
        builder_calls(*final(b)) == builder_calls(*old(b)).push(
            CallRecord {
                package: package@,
                module: module@,
                function: function@,
                type_args: canonical_types(types@),
                args: resolved(*old(b), args@),
            },
        ),
        builder_sender(*final(b)) == builder_sender(*old(b)),
        builder_gas_budget(*final(b)) == builder_gas_budget(*old(b)),
{
    let types = types.iter().map(|t| t.parse().unwrap()).collect();
    let module = Identifier::new(module).unwrap();
    let function = Identifier::new(function).unwrap();
    let function = Function::new(Address::new(*package), module, function);
    b.move_call(function.with_type_args(types), args);
}

/// Adds one argument, and gives its handle.
fn add_arg(b: &mut TransactionBuilder, arg: &CallArg) -> (handle: Argument)
    requires
        arg.encodable(),
    ensures
        input_added(*old(b), *final(b), handle, arg.input()),
{
    match arg {
        CallArg::Object(id) => add_object(b, id),
        CallArg::Gas => add_gas(b),
        CallArg::U64(v) => add_u64(b, *v),
        CallArg::Bytes(v) => add_bytes(b, v),
        CallArg::Id(id) => add_id(b, id),
    }
}

/// The transaction by which `sender` calls one function of a Move module.
pub(crate) fn call_transaction(
    sender: &RawId,
    gas_budget: u64,
    package: &RawId,
    module: &str,
    function: &str,
    types: &Vec<String>,
    args: &Vec<CallArg>,
) -> (b: TransactionBuilder)
    requires
        is_identifier(module@),
        is_identifier(function@),
        forall|i: int| 0 <= i < types@.len() ==> type_tag_of((#[trigger] types@[i])@) is Some,
        forall|i: int| 0 <= i < args@.len() ==> (#[trigger] args@[i]).encodable(),
    ensures
        builder_sender(b) == Some(sender@),
        builder_gas_budget(b) == Some(gas_budget),
        builder_calls(b) == seq![
            CallRecord {
                package: package@,
                module: module@,
                function: function@,
                type_args: canonical_types(types@),
                args: call_inputs(args@),
            },
        ],
{
    let mut b = new_builder();
    set_sender(&mut b, sender);
    set_gas_budget(&mut b, gas_budget);
    let mut handles: Vec<Argument> = Vec::new();
    let mut i: usize = 0;
    while i < args.len()
        invariant
            i <= args@.len(),
            handles@.len() == i,
            forall|j: int| 0 <= j < args@.len() ==> (#[trigger] args@[j]).encodable(),
            forall|j: int|
                0 <= j < i ==> builder_input(b, #[trigger] handles@[j]) == Some(args@[j].input()),
            builder_sender(b) == Some(sender@),
            builder_gas_budget(b) == Some(gas_budget),
            builder_calls(b) == Seq::<CallRecord>::empty(),
        decreases args@.len() - i,
    {
        let handle = add_arg(&mut b, &args[i]);
        handles.push(handle);
        i += 1;
    }
    proof {
        assert(resolved(b, handles@) =~= call_inputs(args@));
    }
    add_move_call(&mut b, package, module, function, types, handles);
    b
}

/// Each argument is passed as what it is: an object by its identifier, the gas coin as
/// itself, and a value by its bytes.
pub proof fn arguments_are_passed_as_they_are(id: RawId, v: u64, bytes: Vec<u8>)
    ensures
        CallArg::Object(id).input() == CallInput::Object(id@),
        CallArg::Gas.input() == CallInput::Gas,
        CallArg::U64(v).input() == CallInput::Pure(u64_bytes(v)),
        CallArg::Bytes(bytes).input() == CallInput::Pure(vector_bytes(bytes@)),
        CallArg::Id(id).input() == CallInput::Pure(id@),
{
}

/// Arguments are passed in their order, each in its place.
pub proof fn arguments_keep_their_places(args: Seq<CallArg>, i: int)
    requires
        0 <= i < args.len(),
    ensures
        call_inputs(args).len() == args.len(),
        call_inputs(args)[i] == args[i].input(),
{
}

/// Two calls that pass the same number, or the same identifier, were given the same.
pub proof fn passed_values_tell_what_was_given(a: u64, b: u64, v: Vec<u8>, w: Vec<u8>)
    ensures
        CallArg::U64(a).input() == CallArg::U64(b).input() ==> a == b,
        CallArg::Bytes(v).input() == CallArg::Bytes(w).input() ==> v@ == w@,
{
    if u64_bytes(a) == u64_bytes(b) {
        u64_bytes_unique(a, b, seq![], seq![]);
    }
    if vector_bytes(v@) == vector_bytes(w@) {
        vector_bytes_unique(v@, w@, seq![], seq![]);
    }
}

}
