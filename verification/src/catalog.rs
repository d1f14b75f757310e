//! The message catalog: which exchange each message kind is published to,
//! what kind of exchange it is, and which durable queues are bound to it.
//! The worker declares all of this once at startup; the declarations are
//! idempotent on the broker.

use vstd::prelude::*;

use crate::federation::InboundActivity;

verus! {

/// The kinds of exchange the broker offers.
pub enum BrokerExchangeKind {
    /// Copies every message to every bound queue.
    Fanout,
    /// Routes by exact routing key.
    Direct,
    /// Routes by header matching.
    Headers,
}

/// One exchange declaration: its name, kind, and the durable queues bound
/// to it with an empty routing key.
pub struct ExchangeDecl {
    pub name: String,
    pub kind: BrokerExchangeKind,
    pub queues: Vec<String>,
}

/// The message kinds this system publishes.
pub enum MessageKind {
    /// Transaction requests, answered over the reply queue.
    Transaction,
    /// Committed-state announcements, fanned out by headers.
    Interaction,
    /// Inbound activities from peers, awaiting processing.
    ReceiveActivity,
    /// Outbound activities to be posted to remote inboxes.
    DeliverActivity,
    /// A plain announcement used to exercise the broker wiring.
    TestAnnounce,
}

/// The exchange declaration for each message kind: transactions, inbound
/// and outbound activities use direct exchanges each with one durable
/// worker queue; interactions use a headers exchange with a queue for the
/// remote deliverer; the test announcement uses a fanout exchange with no
/// bound queue, since its listeners declare their own transient copies.
pub fn exchange_declaration(kind: &MessageKind) -> (r: ExchangeDecl)
    ensures
        match kind {
            MessageKind::Transaction => r.name@ == "Transaction"@ && r.kind is Direct
                && r.queues@.len() == 1 && r.queues@[0]@ == "Transaction.process"@,
            MessageKind::Interaction => r.name@ == "Interaction"@ && r.kind is Headers
                && r.queues@.len() == 1 && r.queues@[0]@ == "Interaction.for_remote"@,
            MessageKind::ReceiveActivity => r.name@ == "ReceiveActivity"@ && r.kind is Direct
                && r.queues@.len() == 1 && r.queues@[0]@ == "ReceiveActivity.process"@,
            MessageKind::DeliverActivity => r.name@ == "DeliverActivity"@ && r.kind is Direct
                && r.queues@.len() == 1 && r.queues@[0]@ == "DeliverActivity.process"@,
            MessageKind::TestAnnounce => r.name@ == "TestAnnounce"@ && r.kind is Fanout
                && r.queues@.len() == 0,
        },
{
    match kind {
        MessageKind::Transaction => {
            let mut queues: Vec<String> = Vec::new();
            queues.push(String::from_str("Transaction.process"));
            ExchangeDecl {
                name: String::from_str("Transaction"),
                kind: BrokerExchangeKind::Direct,
                queues,
            }
        },
        MessageKind::Interaction => {
            let mut queues: Vec<String> = Vec::new();
            queues.push(String::from_str("Interaction.for_remote"));
            ExchangeDecl {
                name: String::from_str("Interaction"),
                kind: BrokerExchangeKind::Headers,
                queues,
            }
        },
        MessageKind::ReceiveActivity => {
            let mut queues: Vec<String> = Vec::new();
            queues.push(String::from_str("ReceiveActivity.process"));
            ExchangeDecl {
                name: String::from_str("ReceiveActivity"),
                kind: BrokerExchangeKind::Direct,
                queues,
            }
        },
        MessageKind::DeliverActivity => {
            let mut queues: Vec<String> = Vec::new();
            queues.push(String::from_str("DeliverActivity.process"));
            ExchangeDecl {
                name: String::from_str("DeliverActivity"),
                kind: BrokerExchangeKind::Direct,
                queues,
            }
        },
        MessageKind::TestAnnounce => {
            ExchangeDecl {
                name: String::from_str("TestAnnounce"),
                kind: BrokerExchangeKind::Fanout,
                queues: Vec::new(),
            }
        },
    }
}

/// A broker-wiring test message.
pub struct TestAnnounce {
    pub message: String,
}

/// The envelope an inbound activity arrives in.
pub struct ReceiveActivity {
    pub activity: InboundActivity,
}

} // verus!
