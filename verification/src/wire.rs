//! The messages that carry transfers to the settlement layer.
//!
//! A bank send is carried as it is. A transfer of a contract-managed token
//! is carried as an execute call of the token contract; its payload is the
//! JSON that `cosmwasm_std::to_json_binary` gives for the `cw20` message.
use crate::transfer::{TransferIntent, TransferIntentView};
use vstd::prelude::*;

verus! {

/// `cosmwasm_std::StdError`, the error of `cosmwasm_std::to_json_binary`.
/// It is carried as an opaque value; nothing is assumed of what it holds.
#[verifier::external_type_specification]
#[verifier::external_body]
pub struct ExStdError(cosmwasm_std::StdError);

/// What `cosmwasm_std::to_json_binary` returns for a transfer message of
/// `cw20::Cw20ExecuteMsg`: for `Transfer { recipient, amount }` where
/// `owner` is `None`, for `TransferFrom { owner, recipient, amount }` where
/// it is given. The value is the JSON bytes, or `None` where the call
/// returns an error. Nothing is assumed of the bytes but that they depend
/// on these fields alone.
pub uninterp spec fn cw20_transfer_json(
    owner: Option<Seq<char>>,
    recipient: Seq<char>,
    amount: u128,
) -> Option<Seq<u8>>;

/// The view of an optional owner.
pub open spec fn owner_view(owner: Option<&String>) -> Option<Seq<char>> {
    match owner {
        Some(owner) => Some(owner@),
        None => None,
    }
}

/// Calls `cosmwasm_std::to_json_binary` on the message
/// `cw20::Cw20ExecuteMsg::TransferFrom { owner, recipient, amount }`, or, where
/// no owner is given, on `cw20::Cw20ExecuteMsg::Transfer { recipient, amount }`.
/// Not proved, but assumed: the call returns what [`cw20_transfer_json`]
/// names, that is, its outcome depends on these fields alone.
#[verifier::external_body]
fn encode_cw20_transfer(owner: Option<&String>, recipient: &String, amount: u128) -> (res: Result<
    Vec<u8>,
    cosmwasm_std::StdError,
>)
    ensures
        match res {
            Ok(bytes) => cw20_transfer_json(owner_view(owner), recipient@, amount) == Some(bytes@),
            Err(_) => cw20_transfer_json(owner_view(owner), recipient@, amount) is None,
        },
{
    let (recipient, amount) = (recipient.clone(), cosmwasm_std::Uint128::new(amount));
    let msg = match owner {
        Some(owner) => cw20::Cw20ExecuteMsg::TransferFrom { owner: owner.clone(), recipient, amount },
        None => cw20::Cw20ExecuteMsg::Transfer { recipient, amount },
    };
    cosmwasm_std::to_json_binary(&msg).map(Vec::from)
}

/// A transfer could not be put into its wire form.
#[derive(Clone, Copy, Debug, PartialEq, Eq, Structural)]
pub struct EncodeError;

/// A message for the settlement layer.
#[derive(Debug, PartialEq, Eq)]
pub enum OutgoingMsg {
    /// A bank send of one native coin.
    BankSend { to_address: String, denom: String, amount: u128 },
    /// An execute call of the contract at `contract_addr`, with no funds.
    WasmExecute { contract_addr: String, msg: Vec<u8> },
}

/// The view of an [`OutgoingMsg`].
pub enum OutgoingMsgView {
    BankSend { to_address: Seq<char>, denom: Seq<char>, amount: u128 },
    WasmExecute { contract_addr: Seq<char>, msg: Seq<u8> },
}

impl View for OutgoingMsg {
    type V = OutgoingMsgView;

    open spec fn view(&self) -> OutgoingMsgView {
        match self {
            OutgoingMsg::BankSend { to_address, denom, amount } => OutgoingMsgView::BankSend {
                to_address: to_address@,
                denom: denom@,
                amount: *amount,
            },
            OutgoingMsg::WasmExecute { contract_addr, msg } => OutgoingMsgView::WasmExecute {
                contract_addr: contract_addr@,
                msg: msg@,
            },
        }
    }
}

/// The payload of the contract call that carries `intent`; a bank send has
/// none.
pub open spec fn payload_spec(intent: TransferIntentView) -> Option<Seq<u8>> {
    match intent {
        TransferIntentView::Send { .. } => None,
        TransferIntentView::Transfer { recipient, amount, .. } => cw20_transfer_json(
            None,
            recipient,
            amount,
        ),
        TransferIntentView::TransferFrom { owner, recipient, amount, .. } => cw20_transfer_json(
            Some(owner),
            recipient,
            amount,
        ),
    }
}

/// The wire form of `intent`, `None` where its payload cannot be serialised.
pub open spec fn outgoing_spec(intent: TransferIntentView) -> Option<OutgoingMsgView> {
    match intent {
        TransferIntentView::Send { to_address, denom, amount } => Some(
            OutgoingMsgView::BankSend { to_address, denom, amount },
        ),
        TransferIntentView::Transfer { contract, .. } => match payload_spec(intent) {
            Some(msg) => Some(OutgoingMsgView::WasmExecute { contract_addr: contract, msg }),
            None => None,
        },
        TransferIntentView::TransferFrom { contract, .. } => match payload_spec(intent) {
            Some(msg) => Some(OutgoingMsgView::WasmExecute { contract_addr: contract, msg }),
            None => None,
        },
    }
}

/// Wraps a serialised payload in the call of the token contract.
pub fn wasm_execute(contract_addr: &String, payload: Result<Vec<u8>, cosmwasm_std::StdError>) -> (res:
    Result<OutgoingMsg, EncodeError>)
    ensures
        match payload {
            Ok(bytes) => res is Ok && res->Ok_0@ == (OutgoingMsgView::WasmExecute {
                contract_addr: contract_addr@,
                msg: bytes@,
            }),
            Err(_) => res is Err,
        },
{
    match payload {
        Ok(bytes) => Ok(OutgoingMsg::WasmExecute { contract_addr: contract_addr.clone(), msg: bytes }),
        Err(_) => Err(EncodeError),
    }
}

impl TransferIntent {
    /// The message that carries this transfer to the settlement layer.
    pub fn to_msg(&self) -> (res: Result<OutgoingMsg, EncodeError>)
        ensures
            match outgoing_spec(self@) {
                Some(msg) => res is Ok && res->Ok_0@ == msg,
                None => res is Err,
            },
    {
        match self {
            TransferIntent::Send { to_address, denom, amount } => Ok(
                OutgoingMsg::BankSend {
                    to_address: to_address.clone(),
                    denom: denom.clone(),
                    amount: *amount,
                },
            ),
            TransferIntent::Transfer { contract, recipient, amount } => wasm_execute(
                contract,
                encode_cw20_transfer(None, recipient, *amount),
            ),
            TransferIntent::TransferFrom { contract, owner, recipient, amount } => wasm_execute(
                contract,
                encode_cw20_transfer(Some(owner), recipient, *amount),
            ),
        }
    }
}

} // verus!
