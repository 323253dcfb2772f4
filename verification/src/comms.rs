//! What is exchanged with the window manager (WM): where an output is
//! plugged in, and the texts in which the WM names ports and transforms.

pub mod sway;

use crate::info::Connector;
use crate::text::{decimal, push_decimal};
use vstd::prelude::*;
use vstd::string::StringExecFns;

verus! {

/// Where an output is plugged in.
///
/// This is heavily biased towards how Sway on DRM handles displays.
#[derive(Copy, Clone, Debug, PartialEq, Eq, PartialOrd, Ord, Hash, Structural)]
pub struct Port {
    pub kind: Connector,
    pub idx: u32,
}

impl Port {
    /// The number by which ports are ordered: first by connector, then by
    /// index.
    pub open spec fn key(self) -> int {
        self.kind.rank() * 0x1_0000_0000 + self.idx
    }

    /// The number by which ports are ordered: first by connector, then by
    /// index.
    pub fn sort_key(&self) -> (r: u64)
        ensures
            r == self.key(),
    {
        (self.kind.ordinal() as u64) * 0x1_0000_0000 + (self.idx as u64)
    }

    /// The name by which the WM calls the port: the name of the connector,
    /// a dash and the index.
    pub open spec fn spec_name(self) -> Seq<char> {
        self.kind.spec_wm_name() + seq!['-'] + decimal(self.idx as nat)
    }

    /// The name by which the WM calls the port.
    pub fn name(&self) -> (r: String)
        ensures
            r@ == self.spec_name(),
    {
        let mut out: String = String::from_str(self.kind.wm_name());
        proof {
            reveal_strlit("-");
        }
        out.append("-");
        assert(out@ =~= self.kind.spec_wm_name() + seq!['-']);
        push_decimal(&mut out, self.idx as u64);
        out
    }

    /// Different ports have different keys.
    pub proof fn lemma_key_unique(self, other: Port)
        requires
            self.key() == other.key(),
        ensures
            self == other,
    {
        self.kind.lemma_ranked();
        other.kind.lemma_ranked();
    }

    /// The key orders ports by connector first and by index second.
    pub proof fn lemma_key_order(self, other: Port)
        ensures
            self.key() < other.key() <==> (self.kind.rank() < other.kind.rank() || (self.kind
                == other.kind && self.idx < other.idx)),
    {
        self.kind.lemma_ranked();
        other.kind.lemma_ranked();
    }
}

} // verus!
