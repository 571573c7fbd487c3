//! Buffer sizes for the UDP sockets of a tunnel.
use vstd::prelude::*;

verus! {

/// Receive buffer of a socket tuned for bursts: about 32 ms of gigabit traffic.
pub const TUNED_RECEIVE_BUFFER: usize = 4194304;

/// Buffer sizes to ask for. Without a size the operating system's default stays.
#[derive(Clone, Copy, Debug, PartialEq, Eq, Structural)]
pub struct UdpBuffers {
    pub receive: Option<usize>,
    pub send: Option<usize>,
}

/// The operating system's defaults.
pub open spec fn default_buffers() -> UdpBuffers {
    UdpBuffers { receive: None, send: None }
}

/// A larger receive buffer.
pub open spec fn receive_buffer(bytes: usize) -> UdpBuffers {
    UdpBuffers { receive: Some(bytes), send: None }
}

/// Where binding the sockets stands.
#[derive(Clone, Copy, Debug, PartialEq, Eq, Structural)]
pub enum BindStage {
    /// Bind the sockets with these buffers.
    Attempt(UdpBuffers),
    /// The sockets are bound.
    Bound,
    /// The sockets could not be bound.
    Failed,
}

/// The stage that follows `stage` when the sockets were bound or not. Some systems reject an
/// oversized buffer rather than shrink it, so an attempt that asked for a size is followed by one
/// with the defaults.
pub open spec fn bind_next(stage: BindStage, bound: bool) -> BindStage {
    match stage {
        BindStage::Attempt(buffers) => if bound {
            BindStage::Bound
        } else if buffers != default_buffers() {
            BindStage::Attempt(default_buffers())
        } else {
            BindStage::Failed
        },
        _ => stage,
    }
}

/// Binding the sockets of a tunnel.
pub struct UdpBind {
    stage: BindStage,
}

impl UdpBind {
    /// Where binding stands.
    pub closed spec fn stage(&self) -> BindStage {
        self.stage
    }

    /// Starts binding, with a receive buffer for bursts if the sockets are to be `tuned`.
    pub fn begin(tuned: bool) -> (bind: Self)
        ensures
            bind.stage() == BindStage::Attempt(
                if tuned {
                    receive_buffer(TUNED_RECEIVE_BUFFER)
                } else {
                    default_buffers()
                },
            ),
    {
        if tuned {
            UdpBind::with_receive_buffer(TUNED_RECEIVE_BUFFER)
        } else {
            UdpBind { stage: BindStage::Attempt(UdpBuffers { receive: None, send: None }) }
        }
    }

    /// Starts binding with a receive buffer of `bytes`.
    pub fn with_receive_buffer(bytes: usize) -> (bind: Self)
        ensures
            bind.stage() == BindStage::Attempt(receive_buffer(bytes)),
    {
        UdpBind { stage: BindStage::Attempt(UdpBuffers { receive: Some(bytes), send: None }) }
    }

    /// What to do next.
    pub fn current(&self) -> (stage: BindStage)
        ensures
            stage == self.stage(),
    {
        self.stage
    }

    /// Takes in whether the sockets were bound.
    pub fn step(&mut self, bound: bool)
        ensures
            final(self).stage() == bind_next(old(self).stage(), bound),
    {
        match self.stage {
            BindStage::Attempt(buffers) => {
                self.stage = if bound {
                    BindStage::Bound
                } else if buffers.receive.is_some() || buffers.send.is_some() {
                    BindStage::Attempt(UdpBuffers { receive: None, send: None })
                } else {
                    BindStage::Failed
                };
            },
            _ => {},
        }
    }
}

/// A buffer that the system rejects does not cost the tunnel: binding fails only where it fails
/// with the defaults too, and after at most two attempts it is settled.
pub proof fn rejected_buffer_is_retried_with_defaults(bytes: usize, first: bool, second: bool)
    ensures
        ({
            let start = BindStage::Attempt(receive_buffer(bytes));
            let end = bind_next(bind_next(start, first), second);
            &&& !first ==> bind_next(start, first) == BindStage::Attempt(default_buffers())
            &&& end is Bound <==> first || second
            &&& end is Failed <==> !first && !second
        }),
{
}

/// A size is asked for only of the receive buffer, and only on the first attempt; the defaults ask
/// for none. A tuned socket asks for four megabytes.
pub proof fn only_the_receive_buffer_is_sized(bytes: usize)
    ensures
        receive_buffer(bytes).receive == Some(bytes),
        receive_buffer(bytes).send is None,
        default_buffers().receive is None,
        default_buffers().send is None,
        TUNED_RECEIVE_BUFFER == 4 * 1024 * 1024,
{
}

/// Binding is done once an attempt succeeds, whatever it asked for. One that fails is followed by
/// one without sizes if it asked for any, and otherwise by nothing. What is settled stays.
pub proof fn attempts_lead_to_an_outcome(stage: BindStage, bound: bool)
    ensures
        ({
            let after = bind_next(stage, bound);
            let sized = stage matches BindStage::Attempt(buffers) && (buffers.receive is Some
                || buffers.send is Some);
            &&& after is Bound <==> stage is Bound || stage is Attempt && bound
            &&& after is Failed <==> stage is Failed || stage is Attempt && !bound && !sized
            &&& after is Attempt ==> after == BindStage::Attempt(
                UdpBuffers { receive: None, send: None },
            )
        }),
{
}

} // verus!
