//! What is handed to the parts that work in the background.
use crate::layers::law_absent_kind_keeps_layers;
use crate::layers::without_type;
use crate::layers::LayerState;
use vstd::prelude::*;
use vstd::string::*;

verus! {

/// What the watcher of files is asked to do.
#[derive(Debug)]
pub enum FileWatcherCommand {
    Watch { path: String },
    Unwatch { path: String },
    /// Watch a work tree with all its directories.
    WatchWorktree { worktree: String },
    UnwatchWorktree { worktree: String },
}

/// Why help on a signature is wanted.
#[derive(Debug, Clone, Copy, PartialEq, Eq, Structural)]
pub enum SignatureHelpInvoked {
    Automatic,
    Manual,
}

/// What the handler of signature help is told.
#[derive(Debug, Clone, Copy, PartialEq, Eq, Structural)]
pub enum SignatureHelpEvent {
    /// The user asked for it.
    Invoked,
    Trigger,
}

/// What the handlers are told.
#[derive(Debug, Clone, Copy, PartialEq, Eq, Structural)]
pub struct Handlers;

impl Handlers {
    /// What the handler of signature help is told; nothing if it was not asked for and is switched
    /// off.
    pub fn trigger_signature_help(
        &self,
        invocation: SignatureHelpInvoked,
        auto_signature_help: bool,
    ) -> (r: Option<SignatureHelpEvent>)
        ensures
            r == match invocation {
                SignatureHelpInvoked::Automatic => if auto_signature_help {
                    Some(SignatureHelpEvent::Trigger)
                } else {
                    None
                },
                SignatureHelpInvoked::Manual => Some(SignatureHelpEvent::Invoked),
            },
    {
        match invocation {
            SignatureHelpInvoked::Automatic => if auto_signature_help {
                Some(SignatureHelpEvent::Trigger)
            } else {
                None
            },
            SignatureHelpInvoked::Manual => Some(SignatureHelpEvent::Invoked),
        }
    }
}

/// Takes all prompts off the layers, since their document has lost the focus.
pub fn close_prompts<C>(layers: &mut LayerState<C>)
    ensures
        final(layers).layers@ == without_type(
            old(layers).layers@,
            "prompt"@,
            old(layers).layers@.len() as int,
        ),
        final(layers).last_picker == old(layers).last_picker,
        final(layers).same_rest(*old(layers)),
{
    if layers.has_layer("prompt") {
        layers.remove_layer_type("prompt");
    } else {
        proof {
            law_absent_kind_keeps_layers(layers.layers@, "prompt"@);
        }
    }
}

} // verus!
