//! The message record and the transaction decoder: from a code hash to a
//! transaction kind, and from the outcome of decoding the payload to the
//! message that is stored.

use crate::chain::NamadaTx;
use crate::database::store::{put, KeyView, Rule};
use crate::database::table::{write_of, Key, Record};
use crate::database::Database;
use crate::error::Error;
use crate::utils::{code_hex, hex_encoding, kind_in, ChecksumMap};
use vstd::prelude::*;

verus! {

/// The decoded content of one transaction.
pub struct Message {
    pub height: i64,
    pub tx_hash: String,
    pub message_type: String,
    /// The decoded payload, as JSON text.
    pub value: String,
}

/// The transaction kinds the decoder knows.
#[derive(Clone, Copy, Debug, PartialEq, Eq, Structural)]
pub enum TxKind {
    BecomeValidator,
    Bond,
    BridgePool,
    ChangeConsensusKey,
    ChangeValidatorCommission,
    ChangeValidatorMetadata,
    ClaimRewards,
    DeactivateValidator,
    Ibc,
    InitAccount,
    InitProposal,
    ReactivateValidator,
    Redelegate,
    ResignSteward,
    RevealPk,
    Transfer,
    Unbond,
    UnjailValidator,
    UpdateAccount,
    UpdateStewardCommission,
    VoteProposal,
    Withdraw,
    Unknown,
}

/// The IBC messages the decoder tries, in the order in which it tries them.
#[derive(Clone, Copy, Debug, PartialEq, Eq, Structural)]
pub enum IbcMessage {
    CreateClient,
    UpdateClient,
    SubmitMisbehaviour,
    UpgradeClient,
    ConnectionOpenInit,
    ConnectionOpenTry,
    ConnectionOpenAck,
    ConnectionOpenConfirm,
    ChannelOpenInit,
    ChannelOpenTry,
    ChannelOpenAck,
    ChannelOpenConfirm,
    ChannelCloseInit,
    ChannelCloseConfirm,
    RecvPacket,
    Acknowledgement,
    Timeout,
    TimeoutOnClose,
    Transfer,
    ShieldedTransfer,
}

/// Number of IBC messages the decoder tries.
pub const IBC_MESSAGES: usize = 20;

/// The kind that a name stands for, if it stands for one.
pub open spec fn kind_of_name(name: Seq<char>) -> Option<TxKind> {
    if name == "tx_become_validator"@ {
        Some(TxKind::BecomeValidator)
    } else if name == "tx_bond"@ {
        Some(TxKind::Bond)
    } else if name == "tx_bridge_pool"@ {
        Some(TxKind::BridgePool)
    } else if name == "tx_change_consensus_key"@ {
        Some(TxKind::ChangeConsensusKey)
    } else if name == "tx_change_validator_commission"@ {
        Some(TxKind::ChangeValidatorCommission)
    } else if name == "tx_change_validator_metadata"@ {
        Some(TxKind::ChangeValidatorMetadata)
    } else if name == "tx_claim_rewards"@ {
        Some(TxKind::ClaimRewards)
    } else if name == "tx_deactivate_validator"@ {
        Some(TxKind::DeactivateValidator)
    } else if name == "tx_ibc"@ {
        Some(TxKind::Ibc)
    } else if name == "tx_init_account"@ {
        Some(TxKind::InitAccount)
    } else if name == "tx_init_proposal"@ {
        Some(TxKind::InitProposal)
    } else if name == "tx_reactivate_validator"@ {
        Some(TxKind::ReactivateValidator)
    } else if name == "tx_redelegate"@ {
        Some(TxKind::Redelegate)
    } else if name == "tx_resign_steward"@ {
        Some(TxKind::ResignSteward)
    } else if name == "tx_reveal_pk"@ {
        Some(TxKind::RevealPk)
    } else if name == "tx_transfer"@ {
        Some(TxKind::Transfer)
    } else if name == "tx_unbond"@ {
        Some(TxKind::Unbond)
    } else if name == "tx_unjail_validator"@ {
        Some(TxKind::UnjailValidator)
    } else if name == "tx_update_account"@ {
        Some(TxKind::UpdateAccount)
    } else if name == "tx_update_steward_commission"@ {
        Some(TxKind::UpdateStewardCommission)
    } else if name == "tx_vote_proposal"@ {
        Some(TxKind::VoteProposal)
    } else if name == "tx_withdraw"@ {
        Some(TxKind::Withdraw)
    } else if name == "unknown"@ {
        Some(TxKind::Unknown)
    } else {
        None
    }
}

/// Whether two texts are the same text.
pub fn same_text(a: &str, b: &str) -> (r: bool)
    ensures
        r == (a@ == b@),
{
    a.to_owned() == b.to_owned()
}

impl TxKind {
    /// The kind that a name stands for, if it stands for one.
    pub fn from_name(name: &str) -> (kind: Option<TxKind>)
        ensures
            kind == kind_of_name(name@),
    {
        if same_text(name, "tx_become_validator") {
            Some(TxKind::BecomeValidator)
        } else if same_text(name, "tx_bond") {
            Some(TxKind::Bond)
        } else if same_text(name, "tx_bridge_pool") {
            Some(TxKind::BridgePool)
        } else if same_text(name, "tx_change_consensus_key") {
            Some(TxKind::ChangeConsensusKey)
        } else if same_text(name, "tx_change_validator_commission") {
            Some(TxKind::ChangeValidatorCommission)
        } else if same_text(name, "tx_change_validator_metadata") {
            Some(TxKind::ChangeValidatorMetadata)
        } else if same_text(name, "tx_claim_rewards") {
            Some(TxKind::ClaimRewards)
        } else if same_text(name, "tx_deactivate_validator") {
            Some(TxKind::DeactivateValidator)
        } else if same_text(name, "tx_ibc") {
            Some(TxKind::Ibc)
        } else if same_text(name, "tx_init_account") {
            Some(TxKind::InitAccount)
        } else if same_text(name, "tx_init_proposal") {
            Some(TxKind::InitProposal)
        } else if same_text(name, "tx_reactivate_validator") {
            Some(TxKind::ReactivateValidator)
        } else if same_text(name, "tx_redelegate") {
            Some(TxKind::Redelegate)
        } else if same_text(name, "tx_resign_steward") {
            Some(TxKind::ResignSteward)
        } else if same_text(name, "tx_reveal_pk") {
            Some(TxKind::RevealPk)
        } else if same_text(name, "tx_transfer") {
            Some(TxKind::Transfer)
        } else if same_text(name, "tx_unbond") {
            Some(TxKind::Unbond)
        } else if same_text(name, "tx_unjail_validator") {
            Some(TxKind::UnjailValidator)
        } else if same_text(name, "tx_update_account") {
            Some(TxKind::UpdateAccount)
        } else if same_text(name, "tx_update_steward_commission") {
            Some(TxKind::UpdateStewardCommission)
        } else if same_text(name, "tx_vote_proposal") {
            Some(TxKind::VoteProposal)
        } else if same_text(name, "tx_withdraw") {
            Some(TxKind::Withdraw)
        } else if same_text(name, "unknown") {
            Some(TxKind::Unknown)
        } else {
            None
        }
    }
}

impl IbcMessage {
    /// The IBC message tried at position `i`.
    pub open spec fn spec_at(i: int) -> IbcMessage {
        if i == 0 {
            IbcMessage::CreateClient
        } else if i == 1 {
            IbcMessage::UpdateClient
        } else if i == 2 {
            IbcMessage::SubmitMisbehaviour
        } else if i == 3 {
            IbcMessage::UpgradeClient
        } else if i == 4 {
            IbcMessage::ConnectionOpenInit
        } else if i == 5 {
            IbcMessage::ConnectionOpenTry
        } else if i == 6 {
            IbcMessage::ConnectionOpenAck
        } else if i == 7 {
            IbcMessage::ConnectionOpenConfirm
        } else if i == 8 {
            IbcMessage::ChannelOpenInit
        } else if i == 9 {
            IbcMessage::ChannelOpenTry
        } else if i == 10 {
            IbcMessage::ChannelOpenAck
        } else if i == 11 {
            IbcMessage::ChannelOpenConfirm
        } else if i == 12 {
            IbcMessage::ChannelCloseInit
        } else if i == 13 {
            IbcMessage::ChannelCloseConfirm
        } else if i == 14 {
            IbcMessage::RecvPacket
        } else if i == 15 {
            IbcMessage::Acknowledgement
        } else if i == 16 {
            IbcMessage::Timeout
        } else if i == 17 {
            IbcMessage::TimeoutOnClose
        } else if i == 18 {
            IbcMessage::Transfer
        } else {
            IbcMessage::ShieldedTransfer
        }
    }

    /// The name that is appended to the kind when the message decodes.
    pub open spec fn spec_name(self) -> Seq<char> {
        match self {
            IbcMessage::CreateClient => "MsgCreateClient"@,
            IbcMessage::UpdateClient => "MsgUpdateClient"@,
            IbcMessage::SubmitMisbehaviour => "MsgSubmitMisbehaviour"@,
            IbcMessage::UpgradeClient => "MsgUpgradeClient"@,
            IbcMessage::ConnectionOpenInit => "MsgConnectionOpenInit"@,
            IbcMessage::ConnectionOpenTry => "MsgConnectionOpenTry"@,
            IbcMessage::ConnectionOpenAck => "MsgConnectionOpenAck"@,
            IbcMessage::ConnectionOpenConfirm => "MsgConnectionOpenConfirm"@,
            IbcMessage::ChannelOpenInit => "MsgChannelOpenInit"@,
            IbcMessage::ChannelOpenTry => "MsgChannelOpenTry"@,
            IbcMessage::ChannelOpenAck => "MsgChannelOpenAck"@,
            IbcMessage::ChannelOpenConfirm => "MsgChannelOpenConfirm"@,
            IbcMessage::ChannelCloseInit => "MsgChannelCloseInit"@,
            IbcMessage::ChannelCloseConfirm => "MsgChannelCloseConfirm"@,
            IbcMessage::RecvPacket => "MsgRecvPacket"@,
            IbcMessage::Acknowledgement => "MsgAcknowledgement"@,
            IbcMessage::Timeout => "MsgTimeout"@,
            IbcMessage::TimeoutOnClose => "MsgTimeoutOnClose"@,
            IbcMessage::Transfer => "MsgTransfer"@,
            IbcMessage::ShieldedTransfer => "MsgShieldedTransfer"@,
        }
    }

    /// The IBC message tried at position `i`; `None` past the last one.
    pub fn at(i: usize) -> (m: Option<IbcMessage>)
        ensures
            m == if i < IBC_MESSAGES {
                Some(Self::spec_at(i as int))
            } else {
                None
            },
    {
        if i == 0 {
            Some(IbcMessage::CreateClient)
        } else if i == 1 {
            Some(IbcMessage::UpdateClient)
        } else if i == 2 {
            Some(IbcMessage::SubmitMisbehaviour)
        } else if i == 3 {
            Some(IbcMessage::UpgradeClient)
        } else if i == 4 {
            Some(IbcMessage::ConnectionOpenInit)
        } else if i == 5 {
            Some(IbcMessage::ConnectionOpenTry)
        } else if i == 6 {
            Some(IbcMessage::ConnectionOpenAck)
        } else if i == 7 {
            Some(IbcMessage::ConnectionOpenConfirm)
        } else if i == 8 {
            Some(IbcMessage::ChannelOpenInit)
        } else if i == 9 {
            Some(IbcMessage::ChannelOpenTry)
        } else if i == 10 {
            Some(IbcMessage::ChannelOpenAck)
        } else if i == 11 {
            Some(IbcMessage::ChannelOpenConfirm)
        } else if i == 12 {
            Some(IbcMessage::ChannelCloseInit)
        } else if i == 13 {
            Some(IbcMessage::ChannelCloseConfirm)
        } else if i == 14 {
            Some(IbcMessage::RecvPacket)
        } else if i == 15 {
            Some(IbcMessage::Acknowledgement)
        } else if i == 16 {
            Some(IbcMessage::Timeout)
        } else if i == 17 {
            Some(IbcMessage::TimeoutOnClose)
        } else if i == 18 {
            Some(IbcMessage::Transfer)
        } else if i == 19 {
            Some(IbcMessage::ShieldedTransfer)
        } else {
            None
        }
    }

    /// The name that is appended to the kind when the message decodes.
    pub fn name(&self) -> (s: String)
        ensures
            s@ == self.spec_name(),
    {
        match self {
            IbcMessage::CreateClient => String::from_str("MsgCreateClient"),
            IbcMessage::UpdateClient => String::from_str("MsgUpdateClient"),
            IbcMessage::SubmitMisbehaviour => String::from_str("MsgSubmitMisbehaviour"),
            IbcMessage::UpgradeClient => String::from_str("MsgUpgradeClient"),
            IbcMessage::ConnectionOpenInit => String::from_str("MsgConnectionOpenInit"),
            IbcMessage::ConnectionOpenTry => String::from_str("MsgConnectionOpenTry"),
            IbcMessage::ConnectionOpenAck => String::from_str("MsgConnectionOpenAck"),
            IbcMessage::ConnectionOpenConfirm => String::from_str("MsgConnectionOpenConfirm"),
            IbcMessage::ChannelOpenInit => String::from_str("MsgChannelOpenInit"),
            IbcMessage::ChannelOpenTry => String::from_str("MsgChannelOpenTry"),
            IbcMessage::ChannelOpenAck => String::from_str("MsgChannelOpenAck"),
            IbcMessage::ChannelOpenConfirm => String::from_str("MsgChannelOpenConfirm"),
            IbcMessage::ChannelCloseInit => String::from_str("MsgChannelCloseInit"),
            IbcMessage::ChannelCloseConfirm => String::from_str("MsgChannelCloseConfirm"),
            IbcMessage::RecvPacket => String::from_str("MsgRecvPacket"),
            IbcMessage::Acknowledgement => String::from_str("MsgAcknowledgement"),
            IbcMessage::Timeout => String::from_str("MsgTimeout"),
            IbcMessage::TimeoutOnClose => String::from_str("MsgTimeoutOnClose"),
            IbcMessage::Transfer => String::from_str("MsgTransfer"),
            IbcMessage::ShieldedTransfer => String::from_str("MsgShieldedTransfer"),
        }
    }
}

/// What the decoder asks for once it knows a transaction's kind.
pub enum DecodeRequest {
    /// Nothing is left to decode: the message, if any, is settled.
    Done(Option<(String, String)>),
    /// The payload is to be decoded as the given kind.
    Payload { tx_type: String, kind: TxKind },
    /// The payload is to be tried against the IBC messages, in order.
    Ibc { tx_type: String },
}

/// The error text for a payload that does not decode as its kind.
pub fn parse_error_message(tx_type: &str) -> (message: String)
    ensures
        message@ == "failed to parse to "@ + tx_type@,
{
    String::from_str("failed to parse to ").concat(tx_type)
}

/// Looks up the kind of a transaction and says what is to be decoded.
///
/// A transaction without a code section yields no message. Otherwise its
/// kind is what the checksum table gives for the code hash, `unknown` when
/// the table has no entry; a transaction without data is an error whatever
/// its kind. The kind `unknown` yields an empty message at once, a name the
/// decoder does not know yields none, and every other kind names the payload
/// decoder to run.
pub fn parse_tx_to_message(checksums_map: &ChecksumMap, tx: &NamadaTx) -> (request: Result<
    DecodeRequest,
    Error,
>)
    ensures
        tx.code_hash is None ==> (request matches Ok(DecodeRequest::Done(None))),
        tx.code_hash is Some && tx.data is None ==> (request matches Err(Error::InvalidTxData(m))
            && m@ == "transaction data is empty"@),
        tx.code_hash is Some && tx.data is Some ==> ({
            let tx_type = kind_in(checksums_map@, hex_encoding(tx.code_hash->0@, false));
            match kind_of_name(tx_type) {
                None => (request matches Ok(DecodeRequest::Done(None))),
                Some(TxKind::Unknown) => (request matches Ok(DecodeRequest::Done(Some(m))) && m.0@
                    == tx_type && m.1@ == "{}"@),
                Some(TxKind::Ibc) => (request matches Ok(DecodeRequest::Ibc { tx_type: t }) && t@
                    == tx_type),
                Some(kind) => (request matches Ok(DecodeRequest::Payload { tx_type: t, kind: k })
                    && t@ == tx_type && k == kind),
            }
        }),
{
    let code = match &tx.code_hash {
        Some(code) => code,
        None => {
            return Ok(DecodeRequest::Done(None));
        },
    };
    let code_hex = code_hex(code);
    let tx_type = checksums_map.kind_of(code_hex.as_str());
    if tx.data.is_none() {
        return Err(Error::InvalidTxData(String::from_str("transaction data is empty")));
    }
    match TxKind::from_name(tx_type.as_str()) {
        None => Ok(DecodeRequest::Done(None)),
        Some(TxKind::Unknown) => Ok(DecodeRequest::Done(Some((tx_type, String::from_str("{}"))))),
        Some(TxKind::Ibc) => Ok(DecodeRequest::Ibc { tx_type }),
        Some(kind) => Ok(DecodeRequest::Payload { tx_type, kind }),
    }
}

/// The message of a payload that was to be decoded as its kind: the decoded
/// value under the kind's name, or the error that names the kind.
pub fn decoded_message(tx_type: String, decoded: Option<String>) -> (message: Result<
    Option<(String, String)>,
    Error,
>)
    ensures
        match decoded {
            Some(value) => (message matches Ok(Some(m)) && m.0@ == tx_type@ && m.1@ == value@),
            None => (message matches Err(Error::InvalidTxData(reason)) && reason@
                == "failed to parse to "@ + tx_type@),
        },
{
    match decoded {
        Some(value) => Ok(Some((tx_type, value))),
        None => Err(Error::InvalidTxData(parse_error_message(tx_type.as_str()))),
    }
}

/// Position of the first IBC message, at or after `from`, that decoded.
/// `attempts[i]` holds what the message at position `i` decoded to; attempts
/// that were not made count as failed.
pub open spec fn first_decoded(attempts: Seq<Option<String>>, from: int) -> Option<int>
    decreases attempts.len() - from,
{
    if from >= attempts.len() || from >= IBC_MESSAGES {
        None
    } else if attempts[from] is Some {
        Some(from)
    } else {
        first_decoded(attempts, from + 1)
    }
}

/// The message of an IBC transaction: the value of the first IBC message
/// that decoded, under the kind's name followed by `.` and the message's
/// name; an empty value under the bare kind when none decoded.
pub fn ibc_message(tx_type: String, attempts: &Vec<Option<String>>) -> (message: (String, String))
    ensures
        match first_decoded(attempts@, 0) {
            Some(i) => message.0@ == tx_type@ + "."@ + IbcMessage::spec_at(i).spec_name()
                && message.1@ == attempts@[i]->0@,
            None => message.0@ == tx_type@ && message.1@ == "{}"@,
        },
{
    let mut i: usize = 0;
    while i < attempts.len() && i < IBC_MESSAGES
        invariant
            first_decoded(attempts@, 0) == first_decoded(attempts@, i as int),
        decreases attempts.len() - i,
    {
        match &attempts[i] {
            Some(value) => {
                let sub = match IbcMessage::at(i) {
                    Some(sub) => sub.name(),
                    None => String::new(),
                };
                let name = tx_type.concat(".").concat(sub.as_str());
                return (name, value.clone());
            },
            None => {},
        }
        i += 1;
    }
    (tx_type, String::from_str("{}"))
}

impl Message {
    /// The message of a transaction, from what the decoder made of it: a
    /// message when it decoded to one, none when it decoded to none or
    /// failed to decode.
    pub fn from_tx(
        height: i64,
        tx_hash: String,
        parsed: Result<Option<(String, String)>, Error>,
    ) -> (message: Option<Message>)
        ensures
            match parsed {
                Ok(Some(m)) => (message matches Some(msg) && msg.height == height && msg.tx_hash
                    == tx_hash && msg.message_type == m.0 && msg.value == m.1),
                _ => message is None,
            },
    {
        match parsed {
            Ok(Some((message_type, value))) => Some(
                Message { height, tx_hash, message_type, value },
            ),
            _ => None,
        }
    }

    /// Stores the message unless one of its transaction is stored already.
    pub fn save(&self, db: &mut Database)
        requires
            old(db).wf(),
        ensures
            final(db).wf(),
            final(db).messages@ == put(Rule::InsertIfAbsent, old(db).messages@, write_of(*self)),
            *final(db) == (Database { messages: final(db).messages, ..*old(db) }),
    {
        db.messages.save(self);
    }
}

impl Record for Message {
    open spec fn key_view(&self) -> KeyView {
        KeyView::Text(self.tx_hash@)
    }

    open spec fn version(&self) -> int {
        self.height as int
    }

    fn key(&self) -> (k: Key) {
        Key::Text(self.tx_hash.clone())
    }

    fn gate(&self) -> (h: i64) {
        self.height
    }

    fn duplicate(&self) -> (copy: Self) {
        Message {
            height: self.height,
            tx_hash: self.tx_hash.clone(),
            message_type: self.message_type.clone(),
            value: self.value.clone(),
        }
    }
}

} // verus!
