//! Kinds of resource and the tokens by which one resource holds on to another.

use vstd::prelude::*;

verus! {

/// The kinds of resource that the engine hands out.
#[derive(Clone, Copy, Debug, PartialEq, Eq, Structural)]
pub enum Kind {
    Database,
    Directory,
    Filenames,
    Query,
    Messages,
    Message,
    Tags,
    Threads,
    Thread,
}

/// How a token holds its owner.
#[derive(Clone, Copy, Debug, PartialEq, Eq, Structural)]
pub enum Mode {
    /// The holder is the only owner; the owner goes when the holder goes.
    Exclusive,
    /// The holder is one of several owners; the owner goes with the last.
    Shared,
    /// The holder has the owner on loan; the owner cannot go before the holder.
    Borrowed,
}

/// A hold on the resource in slot `owner` of a ledger.
#[derive(Clone, Copy, Debug, PartialEq, Eq, Structural)]
pub struct Token {
    pub mode: Mode,
    pub owner: usize,
}

/// Whether a resource of kind `owner` may have one of kind `child` made from it.
pub open spec fn permits(owner: Kind, child: Kind) -> bool {
    match owner {
        Kind::Database => child is Query || child is Directory,
        Kind::Directory => child is Filenames,
        Kind::Query => child is Messages || child is Threads || child is Message
            || child is Thread,
        Kind::Threads => child is Thread,
        Kind::Thread => child is Messages || child is Message,
        Kind::Messages => child is Message || child is Tags,
        Kind::Message => child is Tags || child is Filenames,
        Kind::Filenames => false,
        Kind::Tags => false,
    }
}

impl Kind {
    /// Whether a resource of this kind may have one of kind `child` made from it.
    pub fn may_own(self, child: Kind) -> (b: bool)
        ensures
            b == permits(self, child),
    {
        match self {
            Kind::Database => matches!(child, Kind::Query | Kind::Directory),
            Kind::Directory => matches!(child, Kind::Filenames),
            Kind::Query => matches!(
                child,
                Kind::Messages | Kind::Threads | Kind::Message | Kind::Thread
            ),
            Kind::Threads => matches!(child, Kind::Thread),
            Kind::Thread => matches!(child, Kind::Messages | Kind::Message),
            Kind::Messages => matches!(child, Kind::Message | Kind::Tags),
            Kind::Message => matches!(child, Kind::Tags | Kind::Filenames),
            Kind::Filenames => false,
            Kind::Tags => false,
        }
    }
}

impl Mode {
    /// Whether a token of this mode makes its holder an owner.
    pub open spec fn owning(self) -> bool {
        !(self is Borrowed)
    }

    /// Whether a token of this mode makes its holder an owner.
    pub fn is_owning(self) -> (b: bool)
        ensures
            b == self.owning(),
    {
        !matches!(self, Mode::Borrowed)
    }
}

impl Token {
    /// The token that a resource hands to what it yields, derived from its
    /// own: a loan stays a loan, ownership becomes a share.
    pub open spec fn passed_on(self) -> Token {
        Token {
            mode: if self.mode is Borrowed {
                Mode::Borrowed
            } else {
                Mode::Shared
            },
            owner: self.owner,
        }
    }

    /// The token that a resource hands to what it yields, derived from its
    /// own.
    pub fn pass_on(self) -> (t: Token)
        ensures
            t == self.passed_on(),
    {
        Token {
            mode: if self.mode.is_owning() {
                Mode::Shared
            } else {
                Mode::Borrowed
            },
            owner: self.owner,
        }
    }

    /// A loan of the resource in slot `owner`.
    pub fn borrowed(owner: usize) -> (t: Token)
        ensures
            t == (Token { mode: Mode::Borrowed, owner }),
    {
        Token { mode: Mode::Borrowed, owner }
    }

    /// A share in the resource in slot `owner`.
    pub fn shared(owner: usize) -> (t: Token)
        ensures
            t == (Token { mode: Mode::Shared, owner }),
    {
        Token { mode: Mode::Shared, owner }
    }

    /// Sole ownership of the resource in slot `owner`.
    pub fn exclusive(owner: usize) -> (t: Token)
        ensures
            t == (Token { mode: Mode::Exclusive, owner }),
    {
        Token { mode: Mode::Exclusive, owner }
    }
}

} // verus!
