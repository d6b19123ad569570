//! The wait-queue of blocked receivers: who has registered to be woken, in the
//! order in which they registered.
//!
//! The queue keeps the books only. Suspending and resuming threads is the
//! caller's business: `wake_one` and `wake_all` say whom to resume.

use vstd::prelude::*;

verus! {

/// Names one registration. A receiver gets it from `register`, parks, and gives
/// it back through `unregister` once it runs again.
#[derive(Debug, Clone, Copy, PartialEq, Eq, Structural)]
pub struct Token {
    pub id: u64,
}

/// What a wait-queue holds, as a mathematical value.
pub struct Waiters {
    /// The registrations that have not been woken, oldest first.
    pub waiting: Seq<Token>,
    /// The id that the next registration gets.
    pub issued: u64,
}

/// `tokens` without the oldest occurrence of `token`.
pub open spec fn without(tokens: Seq<Token>, token: Token) -> Seq<Token>
    decreases tokens.len(),
{
    if tokens.len() == 0 {
        tokens
    } else if tokens[0] == token {
        tokens.drop_first()
    } else {
        seq![tokens[0]] + without(tokens.drop_first(), token)
    }
}

impl Waiters {
    /// No registration yet.
    pub open spec fn empty() -> Waiters {
        Waiters { waiting: Seq::empty(), issued: 0 }
    }

    /// The token that the next registration returns.
    pub open spec fn next_token(self) -> Token {
        Token { id: self.issued }
    }

    /// After one more registration. Ids wrap around after `u64::MAX`.
    pub open spec fn register(self) -> Waiters {
        Waiters {
            waiting: self.waiting.push(self.next_token()),
            issued: if self.issued == u64::MAX { 0 } else { (self.issued + 1) as u64 },
        }
    }

    /// After `token` has been given back.
    pub open spec fn unregister(self, token: Token) -> Waiters {
        Waiters { waiting: without(self.waiting, token), issued: self.issued }
    }

    /// The registration that `wake_one` resumes: the oldest, if there is any.
    pub open spec fn oldest(self) -> Option<Token> {
        if self.waiting.len() > 0 {
            Some(self.waiting[0])
        } else {
            None
        }
    }

    /// After the oldest registration has been woken.
    pub open spec fn wake_one(self) -> Waiters {
        Waiters {
            waiting: if self.waiting.len() > 0 { self.waiting.drop_first() } else { self.waiting },
            issued: self.issued,
        }
    }

    /// After every registration has been woken.
    pub open spec fn wake_all(self) -> Waiters {
        Waiters { waiting: Seq::empty(), issued: self.issued }
    }
}

/// `without` removes the element at the first index that holds `token`.
proof fn lemma_without_at(tokens: Seq<Token>, token: Token, i: int)
    requires
        0 <= i < tokens.len(),
        tokens[i] == token,
        forall|j: int| 0 <= j < i ==> tokens[j] != token,
    ensures
        without(tokens, token) == tokens.remove(i),
    decreases i,
{
    if i == 0 {
        assert(tokens.remove(0) =~= tokens.drop_first());
    } else {
        let rest = tokens.drop_first();
        assert(forall|j: int| 0 <= j < i - 1 ==> rest[j] == tokens[j + 1]);
        lemma_without_at(rest, token, i - 1);
        assert(tokens.remove(i) =~= seq![tokens[0]] + rest.remove(i - 1));
    }
}

/// `without` leaves a sequence that does not hold `token` as it is.
proof fn lemma_without_absent(tokens: Seq<Token>, token: Token)
    requires
        forall|j: int| 0 <= j < tokens.len() ==> tokens[j] != token,
    ensures
        without(tokens, token) == tokens,
    decreases tokens.len(),
{
    if tokens.len() > 0 {
        let rest = tokens.drop_first();
        assert(forall|j: int| 0 <= j < rest.len() ==> rest[j] == tokens[j + 1]);
        lemma_without_absent(rest, token);
        assert(tokens =~= seq![tokens[0]] + rest);
    }
}

/// The wait-queue of blocked receivers.
pub struct Blocking {
    waiting: Vec<Token>,
    issued: u64,
}

impl View for Blocking {
    type V = Waiters;

    closed spec fn view(&self) -> Waiters {
        Waiters { waiting: self.waiting@, issued: self.issued }
    }
}

impl Blocking {
    /// A wait-queue on which nobody waits.
    pub fn new() -> (b: Blocking)
        ensures
            b@ == Waiters::empty(),
    {
        Blocking { waiting: Vec::new(), issued: 0 }
    }

    /// Adds the caller to the waiters and returns the token of this
    /// registration.
    pub fn register(&mut self) -> (token: Token)
        ensures
            token == old(self)@.next_token(),
            final(self)@ == old(self)@.register(),
    {
        let token = Token { id: self.issued };
        self.waiting.push(token);
        self.issued = self.issued.wrapping_add(1);
        token
    }

    /// Gives a registration back. One that was woken in the meantime is no
    /// longer on the books, and nothing changes.
    pub fn unregister(&mut self, token: Token)
        ensures
            final(self)@ == old(self)@.unregister(token),
    {
        let mut i: usize = 0;
        while i < self.waiting.len()
            invariant
                i <= self.waiting.len(),
                self.waiting@ == old(self).waiting@,
                self.issued == old(self).issued,
                forall|j: int| 0 <= j < i ==> self.waiting@[j] != token,
            decreases self.waiting.len() - i,
        {
            if self.waiting[i] == token {
                proof {
                    lemma_without_at(self.waiting@, token, i as int);
                }
                self.waiting.remove(i);
                return ;
            }
            i += 1;
        }
        proof {
            lemma_without_absent(self.waiting@, token);
        }
    }

    /// Takes the oldest registration off the books and returns it, so that the
    /// caller can resume that receiver. Returns `None` when nobody waits.
    pub fn wake_one(&mut self) -> (woken: Option<Token>)
        ensures
            woken == old(self)@.oldest(),
            final(self)@ == old(self)@.wake_one(),
    {
        if self.waiting.len() > 0 {
            let token = self.waiting.remove(0);
            assert(self.waiting@ =~= old(self).waiting@.drop_first());
            Some(token)
        } else {
            None
        }
    }

    /// Takes every registration off the books and returns them, oldest first,
    /// so that the caller can resume them all.
    pub fn wake_all(&mut self) -> (woken: Vec<Token>)
        ensures
            woken@ == old(self)@.waiting,
            final(self)@ == old(self)@.wake_all(),
    {
        let mut woken: Vec<Token> = Vec::new();
        core::mem::swap(&mut woken, &mut self.waiting);
        woken
    }

    /// Whether `token` is still registered, that is: not woken and not given
    /// back.
    pub fn is_waiting(&self, token: Token) -> (b: bool)
        ensures
            b == self@.waiting.contains(token),
    {
        let mut i: usize = 0;
        while i < self.waiting.len()
            invariant
                i <= self.waiting.len(),
                forall|j: int| 0 <= j < i ==> self.waiting@[j] != token,
            decreases self.waiting.len() - i,
        {
            if self.waiting[i] == token {
                return true;
            }
            i += 1;
        }
        false
    }
}

} // verus!
