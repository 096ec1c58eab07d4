//! Sinks: where a risky value does harm, and how much.

use crate::ast::ModuleCall;
use crate::report::SinkKind;
use crate::text::same_text;
use crate::u256::U256;
use vstd::prelude::*;

verus! {

/// What a call means for the values passed to it.
#[derive(Clone, Copy, Debug, PartialEq, Eq, Structural)]
pub enum SemanticCallSink {
    /// A transfer or movement API of the Sui framework.
    KnownAssetMovementApi,
    /// The call leaves the functions that are analyzed.
    ExternalBoundary,
}

impl SemanticCallSink {
    pub open spec fn label_spec(self) -> Seq<char> {
        match self {
            SemanticCallSink::KnownAssetMovementApi => "known-asset-movement-api"@,
            SemanticCallSink::ExternalBoundary => "external-boundary-call"@,
        }
    }

    pub fn is_critical(self) -> (r: bool)
        ensures
            r == (self is KnownAssetMovementApi),
    {
        matches!(self, SemanticCallSink::KnownAssetMovementApi)
    }

    pub fn label(self) -> (r: &'static str)
        ensures
            r@ == self.label_spec(),
    {
        match self {
            SemanticCallSink::KnownAssetMovementApi => "known-asset-movement-api",
            SemanticCallSink::ExternalBoundary => "external-boundary-call",
        }
    }
}

/// The functions of the framework's `transfer` module that move or share objects.
pub open spec fn is_transfer_fun(name: Seq<char>) -> bool {
    name == "transfer"@ || name == "public_transfer"@ || name == "share_object"@ || name
        == "public_share_object"@ || name == "freeze_object"@ || name == "public_freeze_object"@
        || name == "receive"@ || name == "public_receive"@
}

/// The functions of the framework's `coin` module that take or give amounts.
pub open spec fn is_coin_fun(name: Seq<char>) -> bool {
    name == "transfer"@ || name == "split"@ || name == "split_and_transfer"@ || name == "take"@
        || name == "put"@ || name == "join"@
}

/// Whether the call goes to a function of the Sui framework, at address `0x2`, that moves assets.
pub open spec fn moves_assets(call: ModuleCall) -> bool {
    let module = call.callee.module;
    let name = call.callee.name@;
    module.address@ == 2 && ((module.name@ == "transfer"@ && is_transfer_fun(name)) || (
    module.name@ == "coin"@ && is_coin_fun(name)))
}

pub open spec fn classify_call_sink_spec(call: ModuleCall, callee_known: bool) -> Option<
    SemanticCallSink,
> {
    if moves_assets(call) {
        Some(SemanticCallSink::KnownAssetMovementApi)
    } else if !callee_known {
        Some(SemanticCallSink::ExternalBoundary)
    } else {
        None
    }
}

pub fn classify_call_sink(call: &ModuleCall, callee_known: bool) -> (r: Option<SemanticCallSink>)
    ensures
        r == classify_call_sink_spec(*call, callee_known),
{
    if is_known_asset_movement_api(call) {
        return Some(SemanticCallSink::KnownAssetMovementApi);
    }
    if !callee_known {
        return Some(SemanticCallSink::ExternalBoundary);
    }
    None
}

fn is_known_asset_movement_api(call: &ModuleCall) -> (r: bool)
    ensures
        r == moves_assets(*call),
{
    let address: U256 = call.callee.module.address;
    if address.hi != 0 || address.lo != 2 {
        return false;
    }
    let module: &str = call.callee.module.name.as_str();
    let name: &str = call.callee.name.as_str();
    if same_text(module, "transfer") && (same_text(name, "transfer") || same_text(
        name,
        "public_transfer",
    ) || same_text(name, "share_object") || same_text(name, "public_share_object") || same_text(
        name,
        "freeze_object",
    ) || same_text(name, "public_freeze_object") || same_text(name, "receive") || same_text(
        name,
        "public_receive",
    )) {
        return true;
    }
    same_text(module, "coin") && (same_text(name, "transfer") || same_text(name, "split")
        || same_text(name, "split_and_transfer") || same_text(name, "take") || same_text(
        name,
        "put",
    ) || same_text(name, "join"))
}

pub open spec fn sink_priority_spec(kind: SinkKind, critical_surface: bool) -> nat {
    match kind {
        SinkKind::CallArgument => if critical_surface {
            3
        } else {
            2
        },
        SinkKind::FieldWrite => 3,
        SinkKind::PublicReturn => if critical_surface {
            3
        } else {
            1
        },
        SinkKind::ArithmeticUse => 1,
    }
}

pub fn sink_priority(kind: &SinkKind, critical_surface: bool) -> (r: u8)
    ensures
        r == sink_priority_spec(*kind, critical_surface),
{
    match kind {
        SinkKind::CallArgument => if critical_surface {
            3
        } else {
            2
        },
        SinkKind::FieldWrite => 3,
        SinkKind::PublicReturn => if critical_surface {
            3
        } else {
            1
        },
        SinkKind::ArithmeticUse => 1,
    }
}

/// A value counts for more at a critical sink than at another sink of the same kind, and never
/// for more than a field write.
pub proof fn critical_sinks_come_first(kind: SinkKind)
    ensures
        1 <= sink_priority_spec(kind, false) <= sink_priority_spec(kind, true) <= 3,
        sink_priority_spec(SinkKind::FieldWrite, true) == 3,
        sink_priority_spec(kind, true) < 3 <==> kind is ArithmeticUse,
{
}

} // verus!
