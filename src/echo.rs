//! The payloads of the echo node.
use vstd::prelude::*;

use crate::node::{CreatesInitOkMessage, InitMessage, InitView, TryIntoInitMessage};
use crate::NodeMessage;

verus! {

#[derive(Debug, PartialEq)]
pub enum EchoNodeMessage {
    Init { node_id: String, node_ids: Vec<String> },
    InitOk,
    Echo { echo: String },
    EchoOk { echo: String },
}

impl NodeMessage for EchoNodeMessage {}

impl TryIntoInitMessage for EchoNodeMessage {
    open spec fn init_request(&self) -> Option<InitView> {
        match self {
            EchoNodeMessage::Init { node_id, node_ids } => Some(
                InitView { node_id: node_id@, node_ids: node_ids.deep_view() },
            ),
            _ => None,
        }
    }

    fn try_into_init_message(&self) -> (r: Option<InitMessage>) {
        match self {
            EchoNodeMessage::Init { node_id, node_ids } => {
                let ids = node_ids.clone();
                assert(ids.deep_view() =~= node_ids.deep_view());
                Some(InitMessage { node_id: node_id.clone(), node_ids: ids })
            },
            _ => None,
        }
    }
}

impl CreatesInitOkMessage for EchoNodeMessage {
    open spec fn init_ok() -> Self {
        EchoNodeMessage::InitOk
    }

    fn create_init_ok() -> (r: Self) {
        EchoNodeMessage::InitOk
    }
}

} // verus!
