//! Agent registry and per-Agent inventory, kept as normalized facts with the
//! identity and revision rules of the durable inventory repository, and
//! their projection into the scheduler's candidate pool.
//!
//! Callers hand in identity-checked facts; nothing here verifies signatures,
//! reads a clock or talks to the network.
use vstd::prelude::*;

use crate::job_store::be_bytes;
use crate::gpu_order::{sort_gpus, sorted_gpus};
use crate::job_store::push_be;
use vstd::utf8::encode_utf8;
use crate::text::{blank, copy_string, decimal, is_blank, push_decimal, push_str, str_eq};

verus! {

#[derive(Debug, Clone, Copy, PartialEq, Eq, PartialOrd, Ord, Hash, Structural)]
pub enum NodeState {
    Discovered,
    Enrolling,
    EnrollRejected,
    Approved,
    Online,
    Suspect,
    Unreachable,
    Lost,
    Recovering,
    Draining,
    Offline,
    Quarantined,
    Revoked,
    Terminated,
}

/// The stored name of a node state.
pub open spec fn node_state_name(v: NodeState) -> Seq<char> {
    match v {
        NodeState::Discovered => "DISCOVERED"@,
        NodeState::Enrolling => "ENROLLING"@,
        NodeState::EnrollRejected => "ENROLL_REJECTED"@,
        NodeState::Approved => "APPROVED"@,
        NodeState::Online => "ONLINE"@,
        NodeState::Suspect => "SUSPECT"@,
        NodeState::Unreachable => "UNREACHABLE"@,
        NodeState::Lost => "LOST"@,
        NodeState::Recovering => "RECOVERING"@,
        NodeState::Draining => "DRAINING"@,
        NodeState::Offline => "OFFLINE"@,
        NodeState::Quarantined => "QUARANTINED"@,
        NodeState::Revoked => "REVOKED"@,
        NodeState::Terminated => "TERMINATED"@,
    }
}

/// The one-byte code of a node state in a payload.
pub open spec fn node_state_byte(v: NodeState) -> u8 {
    match v {
        NodeState::Discovered => 1u8,
        NodeState::Enrolling => 2u8,
        NodeState::EnrollRejected => 3u8,
        NodeState::Approved => 4u8,
        NodeState::Online => 5u8,
        NodeState::Suspect => 6u8,
        NodeState::Unreachable => 7u8,
        NodeState::Lost => 8u8,
        NodeState::Recovering => 9u8,
        NodeState::Draining => 10u8,
        NodeState::Offline => 11u8,
        NodeState::Quarantined => 12u8,
        NodeState::Revoked => 13u8,
        NodeState::Terminated => 14u8,
    }
}

/// The node state a stored name reads as.
pub open spec fn parsed_node_state(s: Seq<char>) -> Option<NodeState> {
    if s == "DISCOVERED"@ {
        Some(NodeState::Discovered)
    } else if s == "ENROLLING"@ {
        Some(NodeState::Enrolling)
    } else if s == "ENROLL_REJECTED"@ {
        Some(NodeState::EnrollRejected)
    } else if s == "APPROVED"@ {
        Some(NodeState::Approved)
    } else if s == "ONLINE"@ {
        Some(NodeState::Online)
    } else if s == "SUSPECT"@ {
        Some(NodeState::Suspect)
    } else if s == "UNREACHABLE"@ {
        Some(NodeState::Unreachable)
    } else if s == "LOST"@ {
        Some(NodeState::Lost)
    } else if s == "RECOVERING"@ {
        Some(NodeState::Recovering)
    } else if s == "DRAINING"@ {
        Some(NodeState::Draining)
    } else if s == "OFFLINE"@ {
        Some(NodeState::Offline)
    } else if s == "QUARANTINED"@ {
        Some(NodeState::Quarantined)
    } else if s == "REVOKED"@ {
        Some(NodeState::Revoked)
    } else if s == "TERMINATED"@ {
        Some(NodeState::Terminated)
    } else {
        None
    }
}

impl NodeState {
    /// The stored name.
    pub fn code(self) -> (r: &'static str)
        ensures
            r@ == node_state_name(self),
    {
        match self {
            NodeState::Discovered => "DISCOVERED",
            NodeState::Enrolling => "ENROLLING",
            NodeState::EnrollRejected => "ENROLL_REJECTED",
            NodeState::Approved => "APPROVED",
            NodeState::Online => "ONLINE",
            NodeState::Suspect => "SUSPECT",
            NodeState::Unreachable => "UNREACHABLE",
            NodeState::Lost => "LOST",
            NodeState::Recovering => "RECOVERING",
            NodeState::Draining => "DRAINING",
            NodeState::Offline => "OFFLINE",
            NodeState::Quarantined => "QUARANTINED",
            NodeState::Revoked => "REVOKED",
            NodeState::Terminated => "TERMINATED",
        }
    }

    /// The payload byte.
    pub fn byte(self) -> (r: u8)
        ensures
            r == node_state_byte(self),
    {
        match self {
            NodeState::Discovered => 1,
            NodeState::Enrolling => 2,
            NodeState::EnrollRejected => 3,
            NodeState::Approved => 4,
            NodeState::Online => 5,
            NodeState::Suspect => 6,
            NodeState::Unreachable => 7,
            NodeState::Lost => 8,
            NodeState::Recovering => 9,
            NodeState::Draining => 10,
            NodeState::Offline => 11,
            NodeState::Quarantined => 12,
            NodeState::Revoked => 13,
            NodeState::Terminated => 14,
        }
    }

    /// Reads a stored name; an unknown one is corruption.
    pub fn parse(value: &str) -> (r: Result<NodeState, InventoryStoreError>)
        ensures
            match parsed_node_state(value@) {
                Some(v) => r == Ok::<NodeState, InventoryStoreError>(v),
                None => r matches Err(InventoryStoreError::CorruptData(_)),
            },
    {
        if str_eq(value, "DISCOVERED") {
            Ok(NodeState::Discovered)
        } else if str_eq(value, "ENROLLING") {
            Ok(NodeState::Enrolling)
        } else if str_eq(value, "ENROLL_REJECTED") {
            Ok(NodeState::EnrollRejected)
        } else if str_eq(value, "APPROVED") {
            Ok(NodeState::Approved)
        } else if str_eq(value, "ONLINE") {
            Ok(NodeState::Online)
        } else if str_eq(value, "SUSPECT") {
            Ok(NodeState::Suspect)
        } else if str_eq(value, "UNREACHABLE") {
            Ok(NodeState::Unreachable)
        } else if str_eq(value, "LOST") {
            Ok(NodeState::Lost)
        } else if str_eq(value, "RECOVERING") {
            Ok(NodeState::Recovering)
        } else if str_eq(value, "DRAINING") {
            Ok(NodeState::Draining)
        } else if str_eq(value, "OFFLINE") {
            Ok(NodeState::Offline)
        } else if str_eq(value, "QUARANTINED") {
            Ok(NodeState::Quarantined)
        } else if str_eq(value, "REVOKED") {
            Ok(NodeState::Revoked)
        } else if str_eq(value, "TERMINATED") {
            Ok(NodeState::Terminated)
        } else {
            let mut e = String::from_str("unknown node_state enum value: ");
            push_str(&mut e, value);
            Err(InventoryStoreError::CorruptData(e))
        }
    }
}

/// Every node state reads back from its stored name.
pub proof fn law_node_state_names_round_trip(v: NodeState)
    ensures
        parsed_node_state(node_state_name(v)) == Some(v),
{
    reveal_strlit("DISCOVERED");
    assert("DISCOVERED"@.len() == 10);
    reveal_strlit("ENROLLING");
    assert("ENROLLING"@.len() == 9);
    reveal_strlit("ENROLL_REJECTED");
    assert("ENROLL_REJECTED"@.len() == 15);
    reveal_strlit("APPROVED");
    assert("APPROVED"@.len() == 8);
    reveal_strlit("ONLINE");
    assert("ONLINE"@.len() == 6);
    reveal_strlit("SUSPECT");
    assert("SUSPECT"@.len() == 7);
    reveal_strlit("UNREACHABLE");
    assert("UNREACHABLE"@.len() == 11);
    reveal_strlit("LOST");
    assert("LOST"@.len() == 4);
    reveal_strlit("RECOVERING");
    assert("RECOVERING"@.len() == 10);
    reveal_strlit("DRAINING");
    assert("DRAINING"@.len() == 8);
    reveal_strlit("OFFLINE");
    assert("OFFLINE"@.len() == 7);
    reveal_strlit("QUARANTINED");
    assert("QUARANTINED"@.len() == 11);
    reveal_strlit("REVOKED");
    assert("REVOKED"@.len() == 7);
    reveal_strlit("TERMINATED");
    assert("TERMINATED"@.len() == 10);
    assert("DISCOVERED"@[0] == 'D');
    assert("DISCOVERED"@[1] == 'I');
    assert("DISCOVERED"@[2] == 'S');
    assert("DISCOVERED"@[3] == 'C');
    assert("DISCOVERED"@[4] == 'O');
    assert("DISCOVERED"@[5] == 'V');
    assert("DISCOVERED"@[6] == 'E');
    assert("DISCOVERED"@[7] == 'R');
    assert("DISCOVERED"@[8] == 'E');
    assert("DISCOVERED"@[9] == 'D');
    assert("ENROLLING"@[0] == 'E');
    assert("ENROLLING"@[1] == 'N');
    assert("ENROLLING"@[2] == 'R');
    assert("ENROLLING"@[3] == 'O');
    assert("ENROLLING"@[4] == 'L');
    assert("ENROLLING"@[5] == 'L');
    assert("ENROLLING"@[6] == 'I');
    assert("ENROLLING"@[7] == 'N');
    assert("ENROLLING"@[8] == 'G');
    assert("ENROLL_REJECTED"@[0] == 'E');
    assert("ENROLL_REJECTED"@[1] == 'N');
    assert("ENROLL_REJECTED"@[2] == 'R');
    assert("ENROLL_REJECTED"@[3] == 'O');
    assert("ENROLL_REJECTED"@[4] == 'L');
    assert("ENROLL_REJECTED"@[5] == 'L');
    assert("ENROLL_REJECTED"@[6] == '_');
    assert("ENROLL_REJECTED"@[7] == 'R');
    assert("ENROLL_REJECTED"@[8] == 'E');
    assert("ENROLL_REJECTED"@[9] == 'J');
    assert("ENROLL_REJECTED"@[10] == 'E');
    assert("ENROLL_REJECTED"@[11] == 'C');
    assert("ENROLL_REJECTED"@[12] == 'T');
    assert("ENROLL_REJECTED"@[13] == 'E');
    assert("ENROLL_REJECTED"@[14] == 'D');
    assert("APPROVED"@[0] == 'A');
    assert("APPROVED"@[1] == 'P');
    assert("APPROVED"@[2] == 'P');
    assert("APPROVED"@[3] == 'R');
    assert("APPROVED"@[4] == 'O');
    assert("APPROVED"@[5] == 'V');
    assert("APPROVED"@[6] == 'E');
    assert("APPROVED"@[7] == 'D');
    assert("ONLINE"@[0] == 'O');
    assert("ONLINE"@[1] == 'N');
    assert("ONLINE"@[2] == 'L');
    assert("ONLINE"@[3] == 'I');
    assert("ONLINE"@[4] == 'N');
    assert("ONLINE"@[5] == 'E');
    assert("SUSPECT"@[0] == 'S');
    assert("SUSPECT"@[1] == 'U');
    assert("SUSPECT"@[2] == 'S');
    assert("SUSPECT"@[3] == 'P');
    assert("SUSPECT"@[4] == 'E');
    assert("SUSPECT"@[5] == 'C');
    assert("SUSPECT"@[6] == 'T');
    assert("UNREACHABLE"@[0] == 'U');
    assert("UNREACHABLE"@[1] == 'N');
    assert("UNREACHABLE"@[2] == 'R');
    assert("UNREACHABLE"@[3] == 'E');
    assert("UNREACHABLE"@[4] == 'A');
    assert("UNREACHABLE"@[5] == 'C');
    assert("UNREACHABLE"@[6] == 'H');
    assert("UNREACHABLE"@[7] == 'A');
    assert("UNREACHABLE"@[8] == 'B');
    assert("UNREACHABLE"@[9] == 'L');
    assert("UNREACHABLE"@[10] == 'E');
    assert("LOST"@[0] == 'L');
    assert("LOST"@[1] == 'O');
    assert("LOST"@[2] == 'S');
    assert("LOST"@[3] == 'T');
    assert("RECOVERING"@[0] == 'R');
    assert("RECOVERING"@[1] == 'E');
    assert("RECOVERING"@[2] == 'C');
    assert("RECOVERING"@[3] == 'O');
    assert("RECOVERING"@[4] == 'V');
    assert("RECOVERING"@[5] == 'E');
    assert("RECOVERING"@[6] == 'R');
    assert("RECOVERING"@[7] == 'I');
    assert("RECOVERING"@[8] == 'N');
    assert("RECOVERING"@[9] == 'G');
    assert("DRAINING"@[0] == 'D');
    assert("DRAINING"@[1] == 'R');
    assert("DRAINING"@[2] == 'A');
    assert("DRAINING"@[3] == 'I');
    assert("DRAINING"@[4] == 'N');
    assert("DRAINING"@[5] == 'I');
    assert("DRAINING"@[6] == 'N');
    assert("DRAINING"@[7] == 'G');
    assert("OFFLINE"@[0] == 'O');
    assert("OFFLINE"@[1] == 'F');
    assert("OFFLINE"@[2] == 'F');
    assert("OFFLINE"@[3] == 'L');
    assert("OFFLINE"@[4] == 'I');
    assert("OFFLINE"@[5] == 'N');
    assert("OFFLINE"@[6] == 'E');
    assert("QUARANTINED"@[0] == 'Q');
    assert("QUARANTINED"@[1] == 'U');
    assert("QUARANTINED"@[2] == 'A');
    assert("QUARANTINED"@[3] == 'R');
    assert("QUARANTINED"@[4] == 'A');
    assert("QUARANTINED"@[5] == 'N');
    assert("QUARANTINED"@[6] == 'T');
    assert("QUARANTINED"@[7] == 'I');
    assert("QUARANTINED"@[8] == 'N');
    assert("QUARANTINED"@[9] == 'E');
    assert("QUARANTINED"@[10] == 'D');
    assert("REVOKED"@[0] == 'R');
    assert("REVOKED"@[1] == 'E');
    assert("REVOKED"@[2] == 'V');
    assert("REVOKED"@[3] == 'O');
    assert("REVOKED"@[4] == 'K');
    assert("REVOKED"@[5] == 'E');
    assert("REVOKED"@[6] == 'D');
    assert("TERMINATED"@[0] == 'T');
    assert("TERMINATED"@[1] == 'E');
    assert("TERMINATED"@[2] == 'R');
    assert("TERMINATED"@[3] == 'M');
    assert("TERMINATED"@[4] == 'I');
    assert("TERMINATED"@[5] == 'N');
    assert("TERMINATED"@[6] == 'A');
    assert("TERMINATED"@[7] == 'T');
    assert("TERMINATED"@[8] == 'E');
    assert("TERMINATED"@[9] == 'D');
}

#[derive(Debug, Clone, Copy, PartialEq, Eq, PartialOrd, Ord, Hash, Structural)]
pub enum RiskState {
    Normal,
    Suspect,
    Quarantined,
    Revoked,
}

/// The stored name of a risk state.
pub open spec fn risk_state_name(v: RiskState) -> Seq<char> {
    match v {
        RiskState::Normal => "NORMAL"@,
        RiskState::Suspect => "SUSPECT"@,
        RiskState::Quarantined => "QUARANTINED"@,
        RiskState::Revoked => "REVOKED"@,
    }
}

/// The one-byte code of a risk state in a payload.
pub open spec fn risk_state_byte(v: RiskState) -> u8 {
    match v {
        RiskState::Normal => 1u8,
        RiskState::Suspect => 2u8,
        RiskState::Quarantined => 3u8,
        RiskState::Revoked => 4u8,
    }
}

/// The risk state a stored name reads as.
pub open spec fn parsed_risk_state(s: Seq<char>) -> Option<RiskState> {
    if s == "NORMAL"@ {
        Some(RiskState::Normal)
    } else if s == "SUSPECT"@ {
        Some(RiskState::Suspect)
    } else if s == "QUARANTINED"@ {
        Some(RiskState::Quarantined)
    } else if s == "REVOKED"@ {
        Some(RiskState::Revoked)
    } else {
        None
    }
}

impl RiskState {
    /// The stored name.
    pub fn code(self) -> (r: &'static str)
        ensures
            r@ == risk_state_name(self),
    {
        match self {
            RiskState::Normal => "NORMAL",
            RiskState::Suspect => "SUSPECT",
            RiskState::Quarantined => "QUARANTINED",
            RiskState::Revoked => "REVOKED",
        }
    }

    /// The payload byte.
    pub fn byte(self) -> (r: u8)
        ensures
            r == risk_state_byte(self),
    {
        match self {
            RiskState::Normal => 1,
            RiskState::Suspect => 2,
            RiskState::Quarantined => 3,
            RiskState::Revoked => 4,
        }
    }

    /// Reads a stored name; an unknown one is corruption.
    pub fn parse(value: &str) -> (r: Result<RiskState, InventoryStoreError>)
        ensures
            match parsed_risk_state(value@) {
                Some(v) => r == Ok::<RiskState, InventoryStoreError>(v),
                None => r matches Err(InventoryStoreError::CorruptData(_)),
            },
    {
        if str_eq(value, "NORMAL") {
            Ok(RiskState::Normal)
        } else if str_eq(value, "SUSPECT") {
            Ok(RiskState::Suspect)
        } else if str_eq(value, "QUARANTINED") {
            Ok(RiskState::Quarantined)
        } else if str_eq(value, "REVOKED") {
            Ok(RiskState::Revoked)
        } else {
            let mut e = String::from_str("unknown risk_state enum value: ");
            push_str(&mut e, value);
            Err(InventoryStoreError::CorruptData(e))
        }
    }
}

/// Every risk state reads back from its stored name.
pub proof fn law_risk_state_names_round_trip(v: RiskState)
    ensures
        parsed_risk_state(risk_state_name(v)) == Some(v),
{
    reveal_strlit("NORMAL");
    assert("NORMAL"@.len() == 6);
    reveal_strlit("SUSPECT");
    assert("SUSPECT"@.len() == 7);
    reveal_strlit("QUARANTINED");
    assert("QUARANTINED"@.len() == 11);
    reveal_strlit("REVOKED");
    assert("REVOKED"@.len() == 7);
    assert("NORMAL"@[0] == 'N');
    assert("NORMAL"@[1] == 'O');
    assert("NORMAL"@[2] == 'R');
    assert("NORMAL"@[3] == 'M');
    assert("NORMAL"@[4] == 'A');
    assert("NORMAL"@[5] == 'L');
    assert("SUSPECT"@[0] == 'S');
    assert("SUSPECT"@[1] == 'U');
    assert("SUSPECT"@[2] == 'S');
    assert("SUSPECT"@[3] == 'P');
    assert("SUSPECT"@[4] == 'E');
    assert("SUSPECT"@[5] == 'C');
    assert("SUSPECT"@[6] == 'T');
    assert("QUARANTINED"@[0] == 'Q');
    assert("QUARANTINED"@[1] == 'U');
    assert("QUARANTINED"@[2] == 'A');
    assert("QUARANTINED"@[3] == 'R');
    assert("QUARANTINED"@[4] == 'A');
    assert("QUARANTINED"@[5] == 'N');
    assert("QUARANTINED"@[6] == 'T');
    assert("QUARANTINED"@[7] == 'I');
    assert("QUARANTINED"@[8] == 'N');
    assert("QUARANTINED"@[9] == 'E');
    assert("QUARANTINED"@[10] == 'D');
    assert("REVOKED"@[0] == 'R');
    assert("REVOKED"@[1] == 'E');
    assert("REVOKED"@[2] == 'V');
    assert("REVOKED"@[3] == 'O');
    assert("REVOKED"@[4] == 'K');
    assert("REVOKED"@[5] == 'E');
    assert("REVOKED"@[6] == 'D');
}

#[derive(Debug, Clone, Copy, PartialEq, Eq, PartialOrd, Ord, Hash, Structural)]
pub enum SecurityTier {
    S0,
    S1,
    S2,
    S3,
    S4,
    S5,
}

/// The stored name of a security tier.
pub open spec fn security_tier_name(v: SecurityTier) -> Seq<char> {
    match v {
        SecurityTier::S0 => "S0"@,
        SecurityTier::S1 => "S1"@,
        SecurityTier::S2 => "S2"@,
        SecurityTier::S3 => "S3"@,
        SecurityTier::S4 => "S4"@,
        SecurityTier::S5 => "S5"@,
    }
}

/// The one-byte code of a security tier in a payload.
pub open spec fn security_tier_byte(v: SecurityTier) -> u8 {
    match v {
        SecurityTier::S0 => 1u8,
        SecurityTier::S1 => 2u8,
        SecurityTier::S2 => 3u8,
        SecurityTier::S3 => 4u8,
        SecurityTier::S4 => 5u8,
        SecurityTier::S5 => 6u8,
    }
}

/// The security tier a stored name reads as.
pub open spec fn parsed_security_tier(s: Seq<char>) -> Option<SecurityTier> {
    if s == "S0"@ {
        Some(SecurityTier::S0)
    } else if s == "S1"@ {
        Some(SecurityTier::S1)
    } else if s == "S2"@ {
        Some(SecurityTier::S2)
    } else if s == "S3"@ {
        Some(SecurityTier::S3)
    } else if s == "S4"@ {
        Some(SecurityTier::S4)
    } else if s == "S5"@ {
        Some(SecurityTier::S5)
    } else {
        None
    }
}

impl SecurityTier {
    /// The stored name.
    pub fn code(self) -> (r: &'static str)
        ensures
            r@ == security_tier_name(self),
    {
        match self {
            SecurityTier::S0 => "S0",
            SecurityTier::S1 => "S1",
            SecurityTier::S2 => "S2",
            SecurityTier::S3 => "S3",
            SecurityTier::S4 => "S4",
            SecurityTier::S5 => "S5",
        }
    }

    /// The payload byte.
    pub fn byte(self) -> (r: u8)
        ensures
            r == security_tier_byte(self),
    {
        match self {
            SecurityTier::S0 => 1,
            SecurityTier::S1 => 2,
            SecurityTier::S2 => 3,
            SecurityTier::S3 => 4,
            SecurityTier::S4 => 5,
            SecurityTier::S5 => 6,
        }
    }

    /// Reads a stored name; an unknown one is corruption.
    pub fn parse(value: &str) -> (r: Result<SecurityTier, InventoryStoreError>)
        ensures
            match parsed_security_tier(value@) {
                Some(v) => r == Ok::<SecurityTier, InventoryStoreError>(v),
                None => r matches Err(InventoryStoreError::CorruptData(_)),
            },
    {
        if str_eq(value, "S0") {
            Ok(SecurityTier::S0)
        } else if str_eq(value, "S1") {
            Ok(SecurityTier::S1)
        } else if str_eq(value, "S2") {
            Ok(SecurityTier::S2)
        } else if str_eq(value, "S3") {
            Ok(SecurityTier::S3)
        } else if str_eq(value, "S4") {
            Ok(SecurityTier::S4)
        } else if str_eq(value, "S5") {
            Ok(SecurityTier::S5)
        } else {
            let mut e = String::from_str("unknown security_tier enum value: ");
            push_str(&mut e, value);
            Err(InventoryStoreError::CorruptData(e))
        }
    }
}

/// Every security tier reads back from its stored name.
pub proof fn law_security_tier_names_round_trip(v: SecurityTier)
    ensures
        parsed_security_tier(security_tier_name(v)) == Some(v),
{
    reveal_strlit("S0");
    assert("S0"@.len() == 2);
    reveal_strlit("S1");
    assert("S1"@.len() == 2);
    reveal_strlit("S2");
    assert("S2"@.len() == 2);
    reveal_strlit("S3");
    assert("S3"@.len() == 2);
    reveal_strlit("S4");
    assert("S4"@.len() == 2);
    reveal_strlit("S5");
    assert("S5"@.len() == 2);
    assert("S0"@[0] == 'S');
    assert("S0"@[1] == '0');
    assert("S1"@[0] == 'S');
    assert("S1"@[1] == '1');
    assert("S2"@[0] == 'S');
    assert("S2"@[1] == '2');
    assert("S3"@[0] == 'S');
    assert("S3"@[1] == '3');
    assert("S4"@[0] == 'S');
    assert("S4"@[1] == '4');
    assert("S5"@[0] == 'S');
    assert("S5"@[1] == '5');
}

#[derive(Debug, Clone, Copy, PartialEq, Eq, PartialOrd, Ord, Hash, Structural)]
pub enum IsolationClass {
    Restricted,
    Contained,
    Virtualized,
}

/// The stored name of a isolation class.
pub open spec fn isolation_class_name(v: IsolationClass) -> Seq<char> {
    match v {
        IsolationClass::Restricted => "RESTRICTED"@,
        IsolationClass::Contained => "CONTAINED"@,
        IsolationClass::Virtualized => "VIRTUALIZED"@,
    }
}

/// The one-byte code of a isolation class in a payload.
pub open spec fn isolation_class_byte(v: IsolationClass) -> u8 {
    match v {
        IsolationClass::Restricted => 1u8,
        IsolationClass::Contained => 2u8,
        IsolationClass::Virtualized => 3u8,
    }
}

/// The isolation class a stored name reads as.
pub open spec fn parsed_isolation_class(s: Seq<char>) -> Option<IsolationClass> {
    if s == "RESTRICTED"@ {
        Some(IsolationClass::Restricted)
    } else if s == "CONTAINED"@ {
        Some(IsolationClass::Contained)
    } else if s == "VIRTUALIZED"@ {
        Some(IsolationClass::Virtualized)
    } else {
        None
    }
}

impl IsolationClass {
    /// The stored name.
    pub fn code(self) -> (r: &'static str)
        ensures
            r@ == isolation_class_name(self),
    {
        match self {
            IsolationClass::Restricted => "RESTRICTED",
            IsolationClass::Contained => "CONTAINED",
            IsolationClass::Virtualized => "VIRTUALIZED",
        }
    }

    /// The payload byte.
    pub fn byte(self) -> (r: u8)
        ensures
            r == isolation_class_byte(self),
    {
        match self {
            IsolationClass::Restricted => 1,
            IsolationClass::Contained => 2,
            IsolationClass::Virtualized => 3,
        }
    }

    /// Reads a stored name; an unknown one is corruption.
    pub fn parse(value: &str) -> (r: Result<IsolationClass, InventoryStoreError>)
        ensures
            match parsed_isolation_class(value@) {
                Some(v) => r == Ok::<IsolationClass, InventoryStoreError>(v),
                None => r matches Err(InventoryStoreError::CorruptData(_)),
            },
    {
        if str_eq(value, "RESTRICTED") {
            Ok(IsolationClass::Restricted)
        } else if str_eq(value, "CONTAINED") {
            Ok(IsolationClass::Contained)
        } else if str_eq(value, "VIRTUALIZED") {
            Ok(IsolationClass::Virtualized)
        } else {
            let mut e = String::from_str("unknown isolation_class enum value: ");
            push_str(&mut e, value);
            Err(InventoryStoreError::CorruptData(e))
        }
    }
}

/// Every isolation class reads back from its stored name.
pub proof fn law_isolation_class_names_round_trip(v: IsolationClass)
    ensures
        parsed_isolation_class(isolation_class_name(v)) == Some(v),
{
    reveal_strlit("RESTRICTED");
    assert("RESTRICTED"@.len() == 10);
    reveal_strlit("CONTAINED");
    assert("CONTAINED"@.len() == 9);
    reveal_strlit("VIRTUALIZED");
    assert("VIRTUALIZED"@.len() == 11);
    assert("RESTRICTED"@[0] == 'R');
    assert("RESTRICTED"@[1] == 'E');
    assert("RESTRICTED"@[2] == 'S');
    assert("RESTRICTED"@[3] == 'T');
    assert("RESTRICTED"@[4] == 'R');
    assert("RESTRICTED"@[5] == 'I');
    assert("RESTRICTED"@[6] == 'C');
    assert("RESTRICTED"@[7] == 'T');
    assert("RESTRICTED"@[8] == 'E');
    assert("RESTRICTED"@[9] == 'D');
    assert("CONTAINED"@[0] == 'C');
    assert("CONTAINED"@[1] == 'O');
    assert("CONTAINED"@[2] == 'N');
    assert("CONTAINED"@[3] == 'T');
    assert("CONTAINED"@[4] == 'A');
    assert("CONTAINED"@[5] == 'I');
    assert("CONTAINED"@[6] == 'N');
    assert("CONTAINED"@[7] == 'E');
    assert("CONTAINED"@[8] == 'D');
    assert("VIRTUALIZED"@[0] == 'V');
    assert("VIRTUALIZED"@[1] == 'I');
    assert("VIRTUALIZED"@[2] == 'R');
    assert("VIRTUALIZED"@[3] == 'T');
    assert("VIRTUALIZED"@[4] == 'U');
    assert("VIRTUALIZED"@[5] == 'A');
    assert("VIRTUALIZED"@[6] == 'L');
    assert("VIRTUALIZED"@[7] == 'I');
    assert("VIRTUALIZED"@[8] == 'Z');
    assert("VIRTUALIZED"@[9] == 'E');
    assert("VIRTUALIZED"@[10] == 'D');
}

#[derive(Debug, Clone, Copy, PartialEq, Eq, PartialOrd, Ord, Hash, Structural)]
pub enum KeyProtection {
    K0,
    K1,
    K2,
}

/// The stored name of a key protection.
pub open spec fn key_protection_name(v: KeyProtection) -> Seq<char> {
    match v {
        KeyProtection::K0 => "K0"@,
        KeyProtection::K1 => "K1"@,
        KeyProtection::K2 => "K2"@,
    }
}

/// The one-byte code of a key protection in a payload.
pub open spec fn key_protection_byte(v: KeyProtection) -> u8 {
    match v {
        KeyProtection::K0 => 1u8,
        KeyProtection::K1 => 2u8,
        KeyProtection::K2 => 3u8,
    }
}

/// The key protection a stored name reads as.
pub open spec fn parsed_key_protection(s: Seq<char>) -> Option<KeyProtection> {
    if s == "K0"@ {
        Some(KeyProtection::K0)
    } else if s == "K1"@ {
        Some(KeyProtection::K1)
    } else if s == "K2"@ {
        Some(KeyProtection::K2)
    } else {
        None
    }
}

impl KeyProtection {
    /// The stored name.
    pub fn code(self) -> (r: &'static str)
        ensures
            r@ == key_protection_name(self),
    {
        match self {
            KeyProtection::K0 => "K0",
            KeyProtection::K1 => "K1",
            KeyProtection::K2 => "K2",
        }
    }

    /// The payload byte.
    pub fn byte(self) -> (r: u8)
        ensures
            r == key_protection_byte(self),
    {
        match self {
            KeyProtection::K0 => 1,
            KeyProtection::K1 => 2,
            KeyProtection::K2 => 3,
        }
    }

    /// Reads a stored name; an unknown one is corruption.
    pub fn parse(value: &str) -> (r: Result<KeyProtection, InventoryStoreError>)
        ensures
            match parsed_key_protection(value@) {
                Some(v) => r == Ok::<KeyProtection, InventoryStoreError>(v),
                None => r matches Err(InventoryStoreError::CorruptData(_)),
            },
    {
        if str_eq(value, "K0") {
            Ok(KeyProtection::K0)
        } else if str_eq(value, "K1") {
            Ok(KeyProtection::K1)
        } else if str_eq(value, "K2") {
            Ok(KeyProtection::K2)
        } else {
            let mut e = String::from_str("unknown key_protection enum value: ");
            push_str(&mut e, value);
            Err(InventoryStoreError::CorruptData(e))
        }
    }
}

/// Every key protection reads back from its stored name.
pub proof fn law_key_protection_names_round_trip(v: KeyProtection)
    ensures
        parsed_key_protection(key_protection_name(v)) == Some(v),
{
    reveal_strlit("K0");
    assert("K0"@.len() == 2);
    reveal_strlit("K1");
    assert("K1"@.len() == 2);
    reveal_strlit("K2");
    assert("K2"@.len() == 2);
    assert("K0"@[0] == 'K');
    assert("K0"@[1] == '0');
    assert("K1"@[0] == 'K');
    assert("K1"@[1] == '1');
    assert("K2"@[0] == 'K');
    assert("K2"@[1] == '2');
}

#[derive(Debug, Clone, Copy, PartialEq, Eq, PartialOrd, Ord, Hash, Structural)]
pub enum WorkloadClass {
    Training,
    Inference,
    Preprocessing,
    Evaluation,
    Rendering,
    Other,
}

/// The stored name of a workload class.
pub open spec fn workload_class_name(v: WorkloadClass) -> Seq<char> {
    match v {
        WorkloadClass::Training => "TRAINING"@,
        WorkloadClass::Inference => "INFERENCE"@,
        WorkloadClass::Preprocessing => "PREPROCESSING"@,
        WorkloadClass::Evaluation => "EVALUATION"@,
        WorkloadClass::Rendering => "RENDERING"@,
        WorkloadClass::Other => "OTHER"@,
    }
}

/// The one-byte code of a workload class in a payload.
pub open spec fn workload_class_byte(v: WorkloadClass) -> u8 {
    match v {
        WorkloadClass::Training => 1u8,
        WorkloadClass::Inference => 2u8,
        WorkloadClass::Preprocessing => 3u8,
        WorkloadClass::Evaluation => 4u8,
        WorkloadClass::Rendering => 5u8,
        WorkloadClass::Other => 6u8,
    }
}

/// The workload class a stored name reads as.
pub open spec fn parsed_workload_class(s: Seq<char>) -> Option<WorkloadClass> {
    if s == "TRAINING"@ {
        Some(WorkloadClass::Training)
    } else if s == "INFERENCE"@ {
        Some(WorkloadClass::Inference)
    } else if s == "PREPROCESSING"@ {
        Some(WorkloadClass::Preprocessing)
    } else if s == "EVALUATION"@ {
        Some(WorkloadClass::Evaluation)
    } else if s == "RENDERING"@ {
        Some(WorkloadClass::Rendering)
    } else if s == "OTHER"@ {
        Some(WorkloadClass::Other)
    } else {
        None
    }
}

impl WorkloadClass {
    /// The stored name.
    pub fn code(self) -> (r: &'static str)
        ensures
            r@ == workload_class_name(self),
    {
        match self {
            WorkloadClass::Training => "TRAINING",
            WorkloadClass::Inference => "INFERENCE",
            WorkloadClass::Preprocessing => "PREPROCESSING",
            WorkloadClass::Evaluation => "EVALUATION",
            WorkloadClass::Rendering => "RENDERING",
            WorkloadClass::Other => "OTHER",
        }
    }

    /// The payload byte.
    pub fn byte(self) -> (r: u8)
        ensures
            r == workload_class_byte(self),
    {
        match self {
            WorkloadClass::Training => 1,
            WorkloadClass::Inference => 2,
            WorkloadClass::Preprocessing => 3,
            WorkloadClass::Evaluation => 4,
            WorkloadClass::Rendering => 5,
            WorkloadClass::Other => 6,
        }
    }

    /// Reads a stored name; an unknown one is corruption.
    pub fn parse(value: &str) -> (r: Result<WorkloadClass, InventoryStoreError>)
        ensures
            match parsed_workload_class(value@) {
                Some(v) => r == Ok::<WorkloadClass, InventoryStoreError>(v),
                None => r matches Err(InventoryStoreError::CorruptData(_)),
            },
    {
        if str_eq(value, "TRAINING") {
            Ok(WorkloadClass::Training)
        } else if str_eq(value, "INFERENCE") {
            Ok(WorkloadClass::Inference)
        } else if str_eq(value, "PREPROCESSING") {
            Ok(WorkloadClass::Preprocessing)
        } else if str_eq(value, "EVALUATION") {
            Ok(WorkloadClass::Evaluation)
        } else if str_eq(value, "RENDERING") {
            Ok(WorkloadClass::Rendering)
        } else if str_eq(value, "OTHER") {
            Ok(WorkloadClass::Other)
        } else {
            let mut e = String::from_str("unknown workload_class enum value: ");
            push_str(&mut e, value);
            Err(InventoryStoreError::CorruptData(e))
        }
    }
}

/// Every workload class reads back from its stored name.
pub proof fn law_workload_class_names_round_trip(v: WorkloadClass)
    ensures
        parsed_workload_class(workload_class_name(v)) == Some(v),
{
    reveal_strlit("TRAINING");
    assert("TRAINING"@.len() == 8);
    reveal_strlit("INFERENCE");
    assert("INFERENCE"@.len() == 9);
    reveal_strlit("PREPROCESSING");
    assert("PREPROCESSING"@.len() == 13);
    reveal_strlit("EVALUATION");
    assert("EVALUATION"@.len() == 10);
    reveal_strlit("RENDERING");
    assert("RENDERING"@.len() == 9);
    reveal_strlit("OTHER");
    assert("OTHER"@.len() == 5);
    assert("TRAINING"@[0] == 'T');
    assert("TRAINING"@[1] == 'R');
    assert("TRAINING"@[2] == 'A');
    assert("TRAINING"@[3] == 'I');
    assert("TRAINING"@[4] == 'N');
    assert("TRAINING"@[5] == 'I');
    assert("TRAINING"@[6] == 'N');
    assert("TRAINING"@[7] == 'G');
    assert("INFERENCE"@[0] == 'I');
    assert("INFERENCE"@[1] == 'N');
    assert("INFERENCE"@[2] == 'F');
    assert("INFERENCE"@[3] == 'E');
    assert("INFERENCE"@[4] == 'R');
    assert("INFERENCE"@[5] == 'E');
    assert("INFERENCE"@[6] == 'N');
    assert("INFERENCE"@[7] == 'C');
    assert("INFERENCE"@[8] == 'E');
    assert("PREPROCESSING"@[0] == 'P');
    assert("PREPROCESSING"@[1] == 'R');
    assert("PREPROCESSING"@[2] == 'E');
    assert("PREPROCESSING"@[3] == 'P');
    assert("PREPROCESSING"@[4] == 'R');
    assert("PREPROCESSING"@[5] == 'O');
    assert("PREPROCESSING"@[6] == 'C');
    assert("PREPROCESSING"@[7] == 'E');
    assert("PREPROCESSING"@[8] == 'S');
    assert("PREPROCESSING"@[9] == 'S');
    assert("PREPROCESSING"@[10] == 'I');
    assert("PREPROCESSING"@[11] == 'N');
    assert("PREPROCESSING"@[12] == 'G');
    assert("EVALUATION"@[0] == 'E');
    assert("EVALUATION"@[1] == 'V');
    assert("EVALUATION"@[2] == 'A');
    assert("EVALUATION"@[3] == 'L');
    assert("EVALUATION"@[4] == 'U');
    assert("EVALUATION"@[5] == 'A');
    assert("EVALUATION"@[6] == 'T');
    assert("EVALUATION"@[7] == 'I');
    assert("EVALUATION"@[8] == 'O');
    assert("EVALUATION"@[9] == 'N');
    assert("RENDERING"@[0] == 'R');
    assert("RENDERING"@[1] == 'E');
    assert("RENDERING"@[2] == 'N');
    assert("RENDERING"@[3] == 'D');
    assert("RENDERING"@[4] == 'E');
    assert("RENDERING"@[5] == 'R');
    assert("RENDERING"@[6] == 'I');
    assert("RENDERING"@[7] == 'N');
    assert("RENDERING"@[8] == 'G');
    assert("OTHER"@[0] == 'O');
    assert("OTHER"@[1] == 'T');
    assert("OTHER"@[2] == 'H');
    assert("OTHER"@[3] == 'E');
    assert("OTHER"@[4] == 'R');
}

/// One declared GPU of an Agent's inventory.
#[derive(Debug, Clone, PartialEq, Eq)]
pub struct GpuInventory {
    pub gpu_id: String,
    pub model: Option<String>,
    pub healthy: Option<bool>,
    pub available_vram_bytes: Option<u64>,
}

#[derive(Debug, PartialEq, Eq)]
pub enum InventoryStoreError {
    InvalidInput(&'static str),
    AgentNotFound { node_id: String },
    RegistryConflict { field: &'static str },
    LowerRevision { stored: u64, requested: u64 },
    RevisionConflict { revision: u64 },
    /// A bootstrap entry failed; it names the entry, and nothing was written.
    BootstrapEntry { index: usize, node_id: String, source: Box<InventoryStoreError> },
    CorruptData(String),
    Io(String),
    LockTimeout,
}

/// A GPU as values.
pub struct GpuView {
    pub gpu_id: Seq<char>,
    pub model: Option<Seq<char>>,
    pub healthy: Option<bool>,
    pub available_vram_bytes: Option<u64>,
}

pub open spec fn opt_text(o: Option<String>) -> Option<Seq<char>> {
    match o {
        Some(s) => Some(s@),
        None => None,
    }
}

impl View for GpuInventory {
    type V = GpuView;

    open spec fn view(&self) -> GpuView {
        GpuView {
            gpu_id: self.gpu_id@,
            model: opt_text(self.model),
            healthy: self.healthy,
            available_vram_bytes: self.available_vram_bytes,
        }
    }
}

impl GpuInventory {
    pub fn copied(&self) -> (r: GpuInventory)
        ensures
            r@ == self@,
    {
        GpuInventory {
            gpu_id: copy_string(&self.gpu_id),
            model: match &self.model {
                Some(m) => Some(copy_string(m)),
                None => None,
            },
            healthy: self.healthy,
            available_vram_bytes: self.available_vram_bytes,
        }
    }
}

/// An Agent's immutable local identity and scheduler facts.
#[derive(Debug, Clone, PartialEq, Eq)]
pub struct AgentRegistry {
    pub node_id: String,
    pub device_id: String,
    pub owner_member_id: String,
    pub verifying_key: Vec<u8>,
    pub node_state: Option<NodeState>,
    pub risk_state: Option<RiskState>,
    pub security_tier: Option<SecurityTier>,
    pub isolation_class: Option<IsolationClass>,
    pub key_protection: Option<KeyProtection>,
}

pub struct RegistryView {
    pub node_id: Seq<char>,
    pub device_id: Seq<char>,
    pub owner_member_id: Seq<char>,
    pub verifying_key: Seq<u8>,
    pub node_state: Option<NodeState>,
    pub risk_state: Option<RiskState>,
    pub security_tier: Option<SecurityTier>,
    pub isolation_class: Option<IsolationClass>,
    pub key_protection: Option<KeyProtection>,
}

impl View for AgentRegistry {
    type V = RegistryView;

    open spec fn view(&self) -> RegistryView {
        RegistryView {
            node_id: self.node_id@,
            device_id: self.device_id@,
            owner_member_id: self.owner_member_id@,
            verifying_key: self.verifying_key@,
            node_state: self.node_state,
            risk_state: self.risk_state,
            security_tier: self.security_tier,
            isolation_class: self.isolation_class,
            key_protection: self.key_protection,
        }
    }
}

impl AgentRegistry {
    pub fn copied(&self) -> (r: AgentRegistry)
        ensures
            r@ == self@,
    {
        AgentRegistry {
            node_id: copy_string(&self.node_id),
            device_id: copy_string(&self.device_id),
            owner_member_id: copy_string(&self.owner_member_id),
            verifying_key: crate::job_store::copy_bytes(&self.verifying_key),
            node_state: self.node_state,
            risk_state: self.risk_state,
            security_tier: self.security_tier,
            isolation_class: self.isolation_class,
            key_protection: self.key_protection,
        }
    }
}

/// The latest inventory an Agent reported.
#[derive(Debug, Clone, PartialEq, Eq)]
pub struct AgentInventory {
    pub node_id: String,
    pub inventory_revision: u64,
    pub observed_at_unix_ms: u64,
    /// `None`: the GPUs were not observed; `Some` of an empty list: observed,
    /// and the node has none.
    pub gpus: Option<Vec<GpuInventory>>,
    pub available_cpu_cores: Option<u32>,
    pub available_ram_bytes: Option<u64>,
    pub available_workspace_bytes: Option<u64>,
    /// `None`: the policy was not observed; an empty set explicitly allows no
    /// workload class. A set: neither order nor repetition carries meaning,
    /// and the store keeps it in ascending order, each class once.
    pub allowed_workload_classes: Option<Vec<WorkloadClass>>,
    pub third_party_workloads_opt_in: Option<bool>,
}

pub struct InventoryView {
    pub node_id: Seq<char>,
    pub inventory_revision: u64,
    pub observed_at_unix_ms: u64,
    pub gpus: Option<Seq<GpuView>>,
    pub available_cpu_cores: Option<u32>,
    pub available_ram_bytes: Option<u64>,
    pub available_workspace_bytes: Option<u64>,
    pub allowed_workload_classes: Option<Set<WorkloadClass>>,
    pub third_party_workloads_opt_in: Option<bool>,
}

pub open spec fn gpu_views(g: Seq<GpuInventory>) -> Seq<GpuView> {
    Seq::new(g.len(), |i: int| g[i]@)
}

impl View for AgentInventory {
    type V = InventoryView;

    open spec fn view(&self) -> InventoryView {
        InventoryView {
            node_id: self.node_id@,
            inventory_revision: self.inventory_revision,
            observed_at_unix_ms: self.observed_at_unix_ms,
            gpus: match self.gpus {
                Some(g) => Some(gpu_views(g@)),
                None => None,
            },
            available_cpu_cores: self.available_cpu_cores,
            available_ram_bytes: self.available_ram_bytes,
            available_workspace_bytes: self.available_workspace_bytes,
            allowed_workload_classes: match self.allowed_workload_classes {
                Some(w) => Some(w@.to_set()),
                None => None,
            },
            third_party_workloads_opt_in: self.third_party_workloads_opt_in,
        }
    }
}

fn copy_gpus(g: &Vec<GpuInventory>) -> (r: Vec<GpuInventory>)
    ensures
        gpu_views(r@) == gpu_views(g@),
{
    let mut r: Vec<GpuInventory> = Vec::new();
    let mut i: usize = 0;
    while i < g.len()
        invariant
            i <= g@.len(),
            r@.len() == i,
            forall|j: int| 0 <= j < i ==> (#[trigger] r@[j])@ == g@[j]@,
        decreases g@.len() - i,
    {
        r.push(g[i].copied());
        i = i + 1;
    }
    proof {
        assert(gpu_views(r@) =~= gpu_views(g@));
    }
    r
}

fn copy_classes(w: &Vec<WorkloadClass>) -> (r: Vec<WorkloadClass>)
    ensures
        r@ == w@,
{
    let mut r: Vec<WorkloadClass> = Vec::new();
    let mut i: usize = 0;
    while i < w.len()
        invariant
            i <= w@.len(),
            r@ == w@.take(i as int),
        decreases w@.len() - i,
    {
        r.push(w[i]);
        proof {
            assert(w@.take(i + 1) =~= w@.take(i as int).push(w@[i as int]));
        }
        i = i + 1;
    }
    proof {
        assert(w@.take(w@.len() as int) =~= w@);
    }
    r
}

/// The allowed classes as listed, order and repeats included.
pub open spec fn class_seq(inv: AgentInventory) -> Option<Seq<WorkloadClass>> {
    match inv.allowed_workload_classes {
        Some(w) => Some(w@),
        None => None,
    }
}

impl AgentInventory {
    pub fn copied(&self) -> (r: AgentInventory)
        ensures
            r@ == self@,
            class_seq(r) == class_seq(*self),
    {
        AgentInventory {
            node_id: copy_string(&self.node_id),
            inventory_revision: self.inventory_revision,
            observed_at_unix_ms: self.observed_at_unix_ms,
            gpus: match &self.gpus {
                Some(g) => Some(copy_gpus(g)),
                None => None,
            },
            available_cpu_cores: self.available_cpu_cores,
            available_ram_bytes: self.available_ram_bytes,
            available_workspace_bytes: self.available_workspace_bytes,
            allowed_workload_classes: match &self.allowed_workload_classes {
                Some(w) => Some(copy_classes(w)),
                None => None,
            },
            third_party_workloads_opt_in: self.third_party_workloads_opt_in,
        }
    }
}

/// One Agent's registration and inventory, imported together.
#[derive(Debug, Clone, PartialEq, Eq)]
pub struct AgentBootstrap {
    pub registry: AgentRegistry,
    pub inventory: AgentInventory,
}

#[derive(Debug, Clone, PartialEq, Eq)]
pub struct ImportBootstrapResult {
    pub registered: usize,
    pub inventories_updated: usize,
    pub entries: usize,
}

#[derive(Debug, Clone, PartialEq, Eq)]
pub struct RegisterAgentResult {
    pub registry: AgentRegistry,
    pub created: bool,
}

#[derive(Debug, Clone, PartialEq, Eq)]
pub struct UpdateInventoryResult {
    pub inventory: AgentInventory,
    pub updated: bool,
}

/// The first blank identity field, or a verifying key that is not 32 bytes.
pub open spec fn registry_error(r: RegistryView) -> Option<&'static str> {
    if is_blank(r.node_id) {
        Some("node_id")
    } else if is_blank(r.device_id) {
        Some("device_id")
    } else if is_blank(r.owner_member_id) {
        Some("owner_member_id")
    } else if r.verifying_key.len() != 32 {
        Some("verifying_key")
    } else {
        None
    }
}

pub fn validate_registry(registry: &AgentRegistry) -> (r: Result<(), &'static str>)
    ensures
        match registry_error(registry@) {
            None => r is Ok,
            Some(f) => r == Err::<(), &'static str>(f),
        },
{
    if blank(registry.node_id.as_str()) {
        return Err("node_id");
    }
    if blank(registry.device_id.as_str()) {
        return Err("device_id");
    }
    if blank(registry.owner_member_id.as_str()) {
        return Err("owner_member_id");
    }
    if registry.verifying_key.len() != 32 {
        return Err("verifying_key");
    }
    Ok(())
}

/// What is wrong with the GPU at `i`, given those before it: a blank id, an
/// id seen before, or a blank model.
pub open spec fn gpu_error_at(gs: Seq<GpuView>, i: int) -> Option<&'static str> {
    if is_blank(gs[i].gpu_id) {
        Some("gpu_id")
    } else if exists|k: int| 0 <= k < i && (#[trigger] gs[k]).gpu_id == gs[i].gpu_id {
        Some("duplicate gpu_id")
    } else if gs[i].model matches Some(m) && is_blank(m) {
        Some("gpu model")
    } else {
        None
    }
}

/// The first GPU problem among the first `n`.
pub open spec fn gpu_error_upto(gs: Seq<GpuView>, n: int) -> Option<&'static str>
    decreases n,
{
    if n <= 0 {
        None
    } else {
        match gpu_error_upto(gs, n - 1) {
            Some(e) => Some(e),
            None => gpu_error_at(gs, n - 1),
        }
    }
}

/// The first problem of an inventory: a blank node id, then the GPUs in order.
pub open spec fn inventory_error(inv: InventoryView) -> Option<&'static str> {
    if is_blank(inv.node_id) {
        Some("node_id")
    } else {
        match inv.gpus {
            None => None,
            Some(gs) => gpu_error_upto(gs, gs.len() as int),
        }
    }
}

/// Once a GPU problem is found, it stays the first one.
proof fn lemma_gpu_error_sticks(gs: Seq<GpuView>, i: int, n: int)
    requires
        0 <= i < n,
        gpu_error_upto(gs, i) is None,
        gpu_error_at(gs, i) is Some,
    ensures
        gpu_error_upto(gs, n) == gpu_error_at(gs, i),
    decreases n,
{
    if n > i + 1 {
        lemma_gpu_error_sticks(gs, i, n - 1);
    }
}

pub fn validate_inventory(inventory: &AgentInventory) -> (r: Result<(), &'static str>)
    ensures
        match inventory_error(inventory@) {
            None => r is Ok,
            Some(f) => r == Err::<(), &'static str>(f),
        },
{
    if blank(inventory.node_id.as_str()) {
        return Err("node_id");
    }
    match &inventory.gpus {
        None => Ok(()),
        Some(gpus) => {
            let ghost gs = gpu_views(gpus@);
            let ghost len = gpus@.len() as int;
            assert(forall|j: int| 0 <= j < len ==> #[trigger] gs[j] == gpus@[j]@);
            assert(inventory_error(inventory@) == gpu_error_upto(gs, len));
            let mut i: usize = 0;
            while i < gpus.len()
                invariant
                    gs == gpu_views(gpus@),
                    inventory_error(inventory@) == gpu_error_upto(gs, len),
                    len == gpus@.len(),
                    gs.len() == len,
                    forall|j: int| 0 <= j < len ==> #[trigger] gs[j] == gpus@[j]@,
                    i <= len,
                    gpu_error_upto(gs, i as int) is None,
                decreases len - i,
            {
                let g = &gpus[i];
                if blank(g.gpu_id.as_str()) {
                    proof {
                        assert(gs[i as int] == gpus@[i as int]@);
                        assert(gpu_error_at(gs, i as int) == Some("gpu_id"));
                        lemma_gpu_error_sticks(gs, i as int, len);
                    }
                    return Err("gpu_id");
                }
                let mut k: usize = 0;
                while k < i
                    invariant
                        inventory_error(inventory@) == gpu_error_upto(gs, len),
                        len == gpus@.len(),
                        gs.len() == len,
                        *g == gpus@[i as int],
                        !is_blank(gs[i as int].gpu_id),
                        gpu_error_upto(gs, i as int) is None,
                        forall|j: int| 0 <= j < len ==> #[trigger] gs[j] == gpus@[j]@,
                        k <= i,
                        i < len,
                        forall|j: int| 0 <= j < k ==> (#[trigger] gs[j]).gpu_id != gs[i as int].gpu_id,
                    decreases i - k,
                {
                    let same = str_eq(gpus[k].gpu_id.as_str(), g.gpu_id.as_str());
                    proof {
                        assert(gs[k as int] == gpus@[k as int]@);
                        assert(gs[i as int] == gpus@[i as int]@);
                    }
                    if same {
                        proof {
                            assert(!is_blank(gs[i as int].gpu_id));
                            assert(gpu_error_at(gs, i as int) == Some("duplicate gpu_id"));
                            lemma_gpu_error_sticks(gs, i as int, len);
                        }
                        return Err("duplicate gpu_id");
                    }
                    k = k + 1;
                }
                proof {
                    assert(gs[i as int] == gpus@[i as int]@);
                    assert(!exists|j: int| 0 <= j < i && (#[trigger] gs[j]).gpu_id == gs[i as int].gpu_id);
                }
                match &g.model {
                    Some(m) => {
                        if blank(m.as_str()) {
                            proof {
                                lemma_gpu_error_sticks(gs, i as int, len);
                            }
                            return Err("gpu model");
                        }
                    },
                    None => {},
                }
                proof {
                    assert(gpu_error_at(gs, i as int) is None);
                    assert(gpu_error_upto(gs, i + 1) is None);
                }
                i = i + 1;
            }
            Ok(())
        },
    }
}

/// The class `d` alone when the set holds it, else nothing.
pub open spec fn class_part(s: Set<WorkloadClass>, d: WorkloadClass) -> Seq<WorkloadClass> {
    if s.contains(d) {
        seq![d]
    } else {
        seq![]
    }
}

/// The classes of a set in ascending order, each once.
pub open spec fn class_list(s: Set<WorkloadClass>) -> Seq<WorkloadClass> {
    class_part(s, WorkloadClass::Training) + class_part(s, WorkloadClass::Inference) + class_part(
        s,
        WorkloadClass::Preprocessing,
    ) + class_part(s, WorkloadClass::Evaluation) + class_part(s, WorkloadClass::Rendering) + class_part(
        s,
        WorkloadClass::Other,
    )
}

fn has_class(w: &Vec<WorkloadClass>, c: WorkloadClass) -> (r: bool)
    ensures
        r == w@.contains(c),
{
    let mut i: usize = 0;
    while i < w.len()
        invariant
            i <= w@.len(),
            forall|j: int| 0 <= j < i ==> w@[j] != c,
        decreases w@.len() - i,
    {
        if w[i] == c {
            return true;
        }
        i = i + 1;
    }
    false
}

fn push_if(out: &mut Vec<WorkloadClass>, w: &Vec<WorkloadClass>, c: WorkloadClass)
    ensures
        final(out)@ == old(out)@ + class_part(w@.to_set(), c),
{
    if has_class(w, c) {
        out.push(c);
    }
    assert(final(out)@ =~= old(out)@ + class_part(w@.to_set(), c));
}

/// The allowed classes in ascending order, each once.
pub fn canonical_classes(w: &Vec<WorkloadClass>) -> (r: Vec<WorkloadClass>)
    ensures
        r@ == class_list(w@.to_set()),
{
    let mut r: Vec<WorkloadClass> = Vec::new();
    push_if(&mut r, w, WorkloadClass::Training);
    push_if(&mut r, w, WorkloadClass::Inference);
    push_if(&mut r, w, WorkloadClass::Preprocessing);
    push_if(&mut r, w, WorkloadClass::Evaluation);
    push_if(&mut r, w, WorkloadClass::Rendering);
    push_if(&mut r, w, WorkloadClass::Other);
    assert(r@ =~= class_list(w@.to_set()));
    r
}

/// A text field of a payload: its UTF-8 length in eight big-endian bytes,
/// then its UTF-8 bytes.
pub open spec fn enc_text(s: Seq<char>) -> Seq<u8> {
    be_bytes(encode_utf8(s).len(), 8) + encode_utf8(s)
}

pub open spec fn enc_opt_text(o: Option<Seq<char>>) -> Seq<u8> {
    match o {
        None => seq![0u8],
        Some(s) => seq![1u8] + enc_text(s),
    }
}

pub open spec fn enc_opt_bool(o: Option<bool>) -> Seq<u8> {
    match o {
        None => seq![0u8],
        Some(false) => seq![1u8, 0u8],
        Some(true) => seq![1u8, 1u8],
    }
}

pub open spec fn enc_opt_u64(o: Option<u64>) -> Seq<u8> {
    match o {
        None => seq![0u8],
        Some(v) => seq![1u8] + be_bytes(v as nat, 8),
    }
}

pub open spec fn enc_opt_code(o: Option<u8>) -> Seq<u8> {
    match o {
        None => seq![0u8],
        Some(b) => seq![1u8, b],
    }
}

pub open spec fn opt_byte<T>(o: Option<T>, f: spec_fn(T) -> u8) -> Option<u8> {
    match o {
        None => None,
        Some(v) => Some(f(v)),
    }
}

/// The normalized payload of a registry: the three identity texts, the raw
/// verifying key, then each optional scheduler fact as its code.
pub open spec fn registry_payload(r: RegistryView) -> Seq<u8> {
    enc_text(r.node_id) + enc_text(r.device_id) + enc_text(r.owner_member_id) + r.verifying_key
        + enc_opt_code(opt_byte(r.node_state, |v: NodeState| node_state_byte(v)))
        + enc_opt_code(opt_byte(r.risk_state, |v: RiskState| risk_state_byte(v)))
        + enc_opt_code(opt_byte(r.security_tier, |v: SecurityTier| security_tier_byte(v)))
        + enc_opt_code(opt_byte(r.isolation_class, |v: IsolationClass| isolation_class_byte(v)))
        + enc_opt_code(opt_byte(r.key_protection, |v: KeyProtection| key_protection_byte(v)))
}

pub open spec fn gpu_payload(g: GpuView) -> Seq<u8> {
    enc_text(g.gpu_id) + enc_opt_text(g.model) + enc_opt_bool(g.healthy) + enc_opt_u64(g.available_vram_bytes)
}

pub open spec fn gpus_payload(gs: Seq<GpuView>) -> Seq<u8>
    decreases gs.len(),
{
    if gs.len() == 0 {
        seq![]
    } else {
        gpus_payload(gs.drop_last()) + gpu_payload(gs.last())
    }
}

pub open spec fn classes_payload(cs: Seq<WorkloadClass>) -> Seq<u8> {
    cs.map_values(|c: WorkloadClass| workload_class_byte(c))
}

/// The normalized payload of an inventory: revision and observation time,
/// the GPUs (when observed) counted and in canonical order, the optional
/// resources, the allowed classes (when observed) counted and ascending, and
/// the third-party opt-in.
pub open spec fn gpu_section(o: Option<Seq<GpuView>>) -> Seq<u8> {
    match o {
        None => seq![0u8],
        Some(gs) => seq![1u8] + be_bytes(gs.len(), 8) + gpus_payload(sorted_gpus(gs)),
    }
}

pub open spec fn class_section(o: Option<Set<WorkloadClass>>) -> Seq<u8> {
    match o {
        None => seq![0u8],
        Some(s) => seq![1u8] + be_bytes(class_list(s).len(), 8) + classes_payload(class_list(s)),
    }
}

pub open spec fn cores_u64(o: Option<u32>) -> Option<u64> {
    match o {
        None => None,
        Some(c) => Some(c as u64),
    }
}

pub open spec fn inventory_payload(inv: InventoryView) -> Seq<u8> {
    be_bytes(inv.inventory_revision as nat, 8) + be_bytes(inv.observed_at_unix_ms as nat, 8)
        + gpu_section(inv.gpus) + enc_opt_u64(cores_u64(inv.available_cpu_cores))
        + enc_opt_u64(inv.available_ram_bytes) + enc_opt_u64(inv.available_workspace_bytes)
        + class_section(inv.allowed_workload_classes) + enc_opt_bool(inv.third_party_workloads_opt_in)
}

fn push_bytes(out: &mut Vec<u8>, b: &[u8])
    ensures
        final(out)@ == old(out)@ + b@,
{
    let mut i: usize = 0;
    while i < b.len()
        invariant
            i <= b@.len(),
            out@ == old(out)@ + b@.take(i as int),
        decreases b@.len() - i,
    {
        out.push(b[i]);
        proof {
            assert(b@.take(i + 1) =~= b@.take(i as int).push(b@[i as int]));
        }
        i = i + 1;
    }
    assert(b@.take(b@.len() as int) =~= b@);
}

fn push_text(out: &mut Vec<u8>, s: &str)
    ensures
        final(out)@ == old(out)@ + enc_text(s@),
{
    let bytes = s.as_bytes();
    push_be(out, bytes.len() as u64, 8);
    push_bytes(out, bytes);
    assert(final(out)@ =~= old(out)@ + enc_text(s@));
}

fn push_opt_text(out: &mut Vec<u8>, o: &Option<String>)
    ensures
        final(out)@ == old(out)@ + enc_opt_text(opt_text(*o)),
{
    match o {
        None => out.push(0),
        Some(s) => {
            out.push(1);
            push_text(out, s.as_str());
        },
    }
    assert(final(out)@ =~= old(out)@ + enc_opt_text(opt_text(*o)));
}

fn push_opt_bool(out: &mut Vec<u8>, o: Option<bool>)
    ensures
        final(out)@ == old(out)@ + enc_opt_bool(o),
{
    match o {
        None => out.push(0),
        Some(b) => {
            out.push(1);
            if b {
                out.push(1);
            } else {
                out.push(0);
            }
        },
    }
    assert(final(out)@ =~= old(out)@ + enc_opt_bool(o));
}

fn push_opt_u64(out: &mut Vec<u8>, o: Option<u64>)
    ensures
        final(out)@ == old(out)@ + enc_opt_u64(o),
{
    match o {
        None => out.push(0),
        Some(v) => {
            out.push(1);
            push_be(out, v, 8);
        },
    }
    assert(final(out)@ =~= old(out)@ + enc_opt_u64(o));
}

fn push_opt_code(out: &mut Vec<u8>, o: Option<u8>)
    ensures
        final(out)@ == old(out)@ + enc_opt_code(o),
{
    match o {
        None => out.push(0),
        Some(b) => {
            out.push(1);
            out.push(b);
        },
    }
    assert(final(out)@ =~= old(out)@ + enc_opt_code(o));
}

/// The normalized payload of a registry (see `registry_payload`); two
/// registrations are the same exactly when their payloads are.
pub fn encode_registry(registry: &AgentRegistry) -> (r: Vec<u8>)
    ensures
        r@ == registry_payload(registry@),
{
    let mut out: Vec<u8> = Vec::new();
    push_text(&mut out, registry.node_id.as_str());
    push_text(&mut out, registry.device_id.as_str());
    push_text(&mut out, registry.owner_member_id.as_str());
    push_bytes(&mut out, registry.verifying_key.as_slice());
    push_opt_code(&mut out, match registry.node_state { None => None, Some(v) => Some(v.byte()) });
    push_opt_code(&mut out, match registry.risk_state { None => None, Some(v) => Some(v.byte()) });
    push_opt_code(&mut out, match registry.security_tier { None => None, Some(v) => Some(v.byte()) });
    push_opt_code(&mut out, match registry.isolation_class { None => None, Some(v) => Some(v.byte()) });
    push_opt_code(&mut out, match registry.key_protection { None => None, Some(v) => Some(v.byte()) });
    assert(out@ =~= registry_payload(registry@));
    out
}

fn push_gpus(out: &mut Vec<u8>, gs: &Vec<GpuInventory>)
    ensures
        final(out)@ == old(out)@ + gpus_payload(gpu_views(gs@)),
{
    let mut i: usize = 0;
    while i < gs.len()
        invariant
            i <= gs@.len(),
            out@ == old(out)@ + gpus_payload(gpu_views(gs@.take(i as int))),
        decreases gs@.len() - i,
    {
        let g = &gs[i];
        let ghost before = out@;
        push_text(out, g.gpu_id.as_str());
        push_opt_text(out, &g.model);
        push_opt_bool(out, g.healthy);
        push_opt_u64(out, g.available_vram_bytes);
        proof {
            let prev = gpu_views(gs@.take(i as int));
            let next = gpu_views(gs@.take(i + 1));
            assert(next.drop_last() =~= prev);
            assert(next.last() == gs@[i as int]@);
            assert(out@ =~= before + gpu_payload(gs@[i as int]@));
        }
        i = i + 1;
    }
    assert(gs@.take(gs@.len() as int) =~= gs@);
}

fn push_classes(out: &mut Vec<u8>, cs: &Vec<WorkloadClass>)
    ensures
        final(out)@ == old(out)@ + classes_payload(cs@),
{
    let mut i: usize = 0;
    while i < cs.len()
        invariant
            i <= cs@.len(),
            out@ == old(out)@ + classes_payload(cs@.take(i as int)),
        decreases cs@.len() - i,
    {
        out.push(cs[i].byte());
        proof {
            assert(classes_payload(cs@.take(i + 1)) =~= classes_payload(cs@.take(i as int)).push(
                workload_class_byte(cs@[i as int]),
            ));
        }
        i = i + 1;
    }
    assert(cs@.take(cs@.len() as int) =~= cs@);
}

fn push_gpu_section(out: &mut Vec<u8>, gpus: &Option<Vec<GpuInventory>>)
    ensures
        final(out)@ == old(out)@ + gpu_section(
            match *gpus {
                Some(g) => Some(gpu_views(g@)),
                None => None,
            },
        ),
{
    match gpus {
        None => out.push(0),
        Some(g) => {
            out.push(1);
            let sorted = sort_gpus(g);
            push_be(out, g.len() as u64, 8);
            push_gpus(out, &sorted);
        },
    }
    assert(final(out)@ =~= old(out)@ + gpu_section(
        match *gpus {
            Some(g) => Some(gpu_views(g@)),
            None => None,
        },
    ));
}

fn push_class_section(out: &mut Vec<u8>, classes: &Option<Vec<WorkloadClass>>)
    ensures
        final(out)@ == old(out)@ + class_section(
            match *classes {
                Some(w) => Some(w@.to_set()),
                None => None,
            },
        ),
{
    match classes {
        None => out.push(0),
        Some(w) => {
            out.push(1);
            let cs = canonical_classes(w);
            push_be(out, cs.len() as u64, 8);
            push_classes(out, &cs);
        },
    }
    assert(final(out)@ =~= old(out)@ + class_section(
        match *classes {
            Some(w) => Some(w@.to_set()),
            None => None,
        },
    ));
}

/// The normalized payload of an inventory (see `inventory_payload`); the
/// GPUs are put in canonical order first, so the order they were reported in
/// does not change it.
pub fn encode_inventory_payload(inventory: &AgentInventory) -> (r: Vec<u8>)
    ensures
        r@ == inventory_payload(inventory@),
{
    let mut out: Vec<u8> = Vec::new();
    push_be(&mut out, inventory.inventory_revision, 8);
    push_be(&mut out, inventory.observed_at_unix_ms, 8);
    push_gpu_section(&mut out, &inventory.gpus);
    let cores = match inventory.available_cpu_cores {
        None => None,
        Some(c) => Some(c as u64),
    };
    push_opt_u64(&mut out, cores);
    push_opt_u64(&mut out, inventory.available_ram_bytes);
    push_opt_u64(&mut out, inventory.available_workspace_bytes);
    push_class_section(&mut out, &inventory.allowed_workload_classes);
    push_opt_bool(&mut out, inventory.third_party_workloads_opt_in);
    assert(out@ =~= inventory_payload(inventory@));
    out
}

proof fn lemma_concat_contains<A>(x: Seq<A>, y: Seq<A>, c: A)
    ensures
        (x + y).contains(c) <==> x.contains(c) || y.contains(c),
{
    if (x + y).contains(c) {
        let k = choose|k: int| 0 <= k < (x + y).len() && (x + y)[k] == c;
        if k < x.len() {
            assert(x[k] == c);
        } else {
            assert(y[k - x.len()] == c);
        }
    }
    if x.contains(c) {
        let k = choose|k: int| 0 <= k < x.len() && x[k] == c;
        assert((x + y)[k] == c);
    }
    if y.contains(c) {
        let k = choose|k: int| 0 <= k < y.len() && y[k] == c;
        assert((x + y)[x.len() + k] == c);
    }
}

proof fn lemma_class_part(s: Set<WorkloadClass>, d: WorkloadClass, c: WorkloadClass)
    ensures
        class_part(s, d).contains(c) <==> (s.contains(d) && c == d),
{
    if s.contains(d) {
        assert(class_part(s, d)[0] == d);
    }
}

/// Listing a set's classes and collecting them again gives the set back.
pub proof fn lemma_class_list_set(s: Set<WorkloadClass>)
    ensures
        class_list(s).to_set() == s,
{
    let l = class_list(s);
    assert forall|c: WorkloadClass| #[trigger] l.contains(c) <==> s.contains(c) by {
        let t = class_part(s, WorkloadClass::Training);
        let i = class_part(s, WorkloadClass::Inference);
        let p = class_part(s, WorkloadClass::Preprocessing);
        let e = class_part(s, WorkloadClass::Evaluation);
        let r = class_part(s, WorkloadClass::Rendering);
        let o = class_part(s, WorkloadClass::Other);
        lemma_concat_contains(t, i, c);
        lemma_concat_contains(t + i, p, c);
        lemma_concat_contains(t + i + p, e, c);
        lemma_concat_contains(t + i + p + e, r, c);
        lemma_concat_contains(t + i + p + e + r, o, c);
        lemma_class_part(s, WorkloadClass::Training, c);
        lemma_class_part(s, WorkloadClass::Inference, c);
        lemma_class_part(s, WorkloadClass::Preprocessing, c);
        lemma_class_part(s, WorkloadClass::Evaluation, c);
        lemma_class_part(s, WorkloadClass::Rendering, c);
        lemma_class_part(s, WorkloadClass::Other, c);
    }
    assert(l.to_set() =~= s);
}

proof fn lemma_part_nodup(s: Set<WorkloadClass>, d: WorkloadClass)
    ensures
        class_part(s, d).no_duplicates(),
        forall|j: int| 0 <= j < class_part(s, d).len() ==> class_part(s, d)[j] == d,
{
}

/// Adding the part of class `d` to a prefix that does not hold `d` keeps the
/// list free of repeats.
proof fn lemma_append_part(a: Seq<WorkloadClass>, s: Set<WorkloadClass>, d: WorkloadClass)
    requires
        a.no_duplicates(),
        !a.contains(d),
    ensures
        (a + class_part(s, d)).no_duplicates(),
{
    lemma_part_nodup(s, d);
    let b = class_part(s, d);
    assert forall|i: int, j: int| 0 <= i < a.len() && 0 <= j < b.len() implies a[i] != b[j] by {
        if a[i] == b[j] {
            assert(a.contains(d));
        }
    }
    vstd::seq_lib::lemma_no_dup_in_concat(a, b);
}

/// The classes of a set are listed once each.
pub proof fn lemma_class_list_distinct(s: Set<WorkloadClass>)
    ensures
        class_list(s).no_duplicates(),
{
    let t = class_part(s, WorkloadClass::Training);
    let i = class_part(s, WorkloadClass::Inference);
    let p = class_part(s, WorkloadClass::Preprocessing);
    let e = class_part(s, WorkloadClass::Evaluation);
    let r = class_part(s, WorkloadClass::Rendering);
    let o = class_part(s, WorkloadClass::Other);
    lemma_part_nodup(s, WorkloadClass::Training);
    lemma_class_part(s, WorkloadClass::Training, WorkloadClass::Inference);
    lemma_append_part(t, s, WorkloadClass::Inference);
    lemma_concat_contains(t, i, WorkloadClass::Preprocessing);
    lemma_class_part(s, WorkloadClass::Training, WorkloadClass::Preprocessing);
    lemma_class_part(s, WorkloadClass::Inference, WorkloadClass::Preprocessing);
    lemma_append_part(t + i, s, WorkloadClass::Preprocessing);
    lemma_concat_contains(t + i, p, WorkloadClass::Evaluation);
    lemma_concat_contains(t, i, WorkloadClass::Evaluation);
    lemma_class_part(s, WorkloadClass::Training, WorkloadClass::Evaluation);
    lemma_class_part(s, WorkloadClass::Inference, WorkloadClass::Evaluation);
    lemma_class_part(s, WorkloadClass::Preprocessing, WorkloadClass::Evaluation);
    lemma_append_part(t + i + p, s, WorkloadClass::Evaluation);
    lemma_concat_contains(t + i + p, e, WorkloadClass::Rendering);
    lemma_concat_contains(t + i, p, WorkloadClass::Rendering);
    lemma_concat_contains(t, i, WorkloadClass::Rendering);
    lemma_class_part(s, WorkloadClass::Training, WorkloadClass::Rendering);
    lemma_class_part(s, WorkloadClass::Inference, WorkloadClass::Rendering);
    lemma_class_part(s, WorkloadClass::Preprocessing, WorkloadClass::Rendering);
    lemma_class_part(s, WorkloadClass::Evaluation, WorkloadClass::Rendering);
    lemma_append_part(t + i + p + e, s, WorkloadClass::Rendering);
    lemma_concat_contains(t + i + p + e, r, WorkloadClass::Other);
    lemma_concat_contains(t + i + p, e, WorkloadClass::Other);
    lemma_concat_contains(t + i, p, WorkloadClass::Other);
    lemma_concat_contains(t, i, WorkloadClass::Other);
    lemma_class_part(s, WorkloadClass::Training, WorkloadClass::Other);
    lemma_class_part(s, WorkloadClass::Inference, WorkloadClass::Other);
    lemma_class_part(s, WorkloadClass::Preprocessing, WorkloadClass::Other);
    lemma_class_part(s, WorkloadClass::Evaluation, WorkloadClass::Other);
    lemma_class_part(s, WorkloadClass::Rendering, WorkloadClass::Other);
    lemma_append_part(t + i + p + e + r, s, WorkloadClass::Other);
}

/// The text of an inventory store error.
pub open spec fn inventory_error_text(e: InventoryStoreError) -> Seq<char>
    decreases e,
{
    match e {
        InventoryStoreError::InvalidInput(f) => "invalid inventory store input: "@ + f@,
        InventoryStoreError::AgentNotFound { node_id } => "Agent registry row is absent: "@ + node_id@,
        InventoryStoreError::RegistryConflict { field } => "Agent registry identity conflict: "@ + field@,
        InventoryStoreError::LowerRevision { stored, requested } => "inventory revision moved backwards: stored="@ + decimal((stored) as nat) + ", requested="@ + decimal((requested) as nat),
        InventoryStoreError::RevisionConflict { revision } => "inventory revision "@ + decimal((revision) as nat) + " already has a different payload"@,
        InventoryStoreError::BootstrapEntry { index, node_id, source } => "bootstrap entry "@ + decimal((index) as nat) + " ("@ + node_id@ + ") rejected, nothing was imported: "@ + inventory_error_text(*source),
        InventoryStoreError::CorruptData(m) => "inventory store corruption: "@ + m@,
        InventoryStoreError::Io(m) => "inventory store I/O error: "@ + m@,
        InventoryStoreError::LockTimeout => "inventory store lock acquisition timed out"@,
    }
}

impl InventoryStoreError {
    /// The error's text.
    pub fn message(&self) -> (r: String)
        ensures
            r@ == inventory_error_text(*self),
        decreases *self,
    {
        match self {
            InventoryStoreError::InvalidInput(f) => {
                let mut r = String::from_str("invalid inventory store input: ");
                push_str(&mut r, f);
                r
            },
            InventoryStoreError::AgentNotFound { node_id } => {
                let mut r = String::from_str("Agent registry row is absent: ");
                push_str(&mut r, node_id.as_str());
                r
            },
            InventoryStoreError::RegistryConflict { field } => {
                let mut r = String::from_str("Agent registry identity conflict: ");
                push_str(&mut r, field);
                r
            },
            InventoryStoreError::LowerRevision { stored, requested } => {
                let mut r = String::from_str("inventory revision moved backwards: stored=");
                push_decimal(&mut r, *stored);
                push_str(&mut r, ", requested=");
                push_decimal(&mut r, *requested);
                r
            },
            InventoryStoreError::RevisionConflict { revision } => {
                let mut r = String::from_str("inventory revision ");
                push_decimal(&mut r, *revision);
                push_str(&mut r, " already has a different payload");
                r
            },
            InventoryStoreError::BootstrapEntry { index, node_id, source } => {
                let mut r = String::from_str("bootstrap entry ");
                push_decimal(&mut r, *index as u64);
                push_str(&mut r, " (");
                push_str(&mut r, node_id.as_str());
                push_str(&mut r, ") rejected, nothing was imported: ");
                push_str(&mut r, source.message().as_str());
                r
            },
            InventoryStoreError::CorruptData(m) => {
                let mut r = String::from_str("inventory store corruption: ");
                push_str(&mut r, m.as_str());
                r
            },
            InventoryStoreError::Io(m) => {
                let mut r = String::from_str("inventory store I/O error: ");
                push_str(&mut r, m.as_str());
                r
            },
            InventoryStoreError::LockTimeout => {
                let mut r = String::from_str("inventory store lock acquisition timed out");
                r
            },
        }
    }
}


} // verus!
