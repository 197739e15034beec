//! The short-term conversation buffer of the cognition actor.
//!
//! The buffer keeps the most recent turns of the conversation.  It holds at
//! most `2 * SESSION_BUFFER_MAX` turns: when it is full the oldest turn is
//! dropped before a new one is appended.  Once it holds
//! `SESSION_COMPRESS_THRESHOLD` turns, the next input hands its contents over
//! for compression into long-term memory and empties it.
use std::collections::VecDeque;
use vstd::prelude::*;

verus! {

/// Number of exchanges kept in the buffer (the buffer holds twice as many turns).
pub const SESSION_BUFFER_MAX: usize = 10;

/// Number of turns that triggers compression of the session into the memory graph.
pub const SESSION_COMPRESS_THRESHOLD: usize = 10;

/// Who spoke a turn of the conversation.
#[derive(Clone, Copy, Debug, PartialEq, Eq, Structural)]
pub enum Speaker {
    /// The human user ("Usuario").
    User,
    /// The assistant itself ("Androide").
    Android,
}

/// The label under which a speaker's turns are written.
pub open spec fn speaker_label(s: Speaker) -> Seq<char> {
    match s {
        Speaker::User => "Usuario"@,
        Speaker::Android => "Androide"@,
    }
}

impl Speaker {
    /// The label of this speaker: `"Usuario"` or `"Androide"`.
    pub fn label(&self) -> (r: &'static str)
        ensures
            r@ == speaker_label(*self),
    {
        match self {
            Speaker::User => "Usuario",
            Speaker::Android => "Androide",
        }
    }
}

/// One turn of the conversation.
#[derive(Debug)]
pub struct Turn {
    /// Who spoke.
    pub speaker: Speaker,
    /// What was said.
    pub content: String,
}

impl View for Turn {
    type V = (Speaker, Seq<char>);

    open spec fn view(&self) -> (Speaker, Seq<char>) {
        (self.speaker, self.content@)
    }
}

impl Turn {
    /// A turn of `speaker` saying `content`.
    pub fn new(speaker: Speaker, content: &str) -> (t: Turn)
        ensures
            t@ == (speaker, content@),
    {
        Turn { speaker, content: content.to_string() }
    }

    /// A copy of this turn.
    pub fn duplicate(&self) -> (t: Turn)
        ensures
            t@ == self@,
    {
        Turn { speaker: self.speaker, content: self.content.clone() }
    }
}

/// The views of a sequence of turns.
pub open spec fn turns_view(s: Seq<Turn>) -> Seq<(Speaker, Seq<char>)> {
    s.map_values(|t: Turn| t@)
}

/// The contents of the buffer after `turn` is pushed onto `old`: the oldest
/// turn goes first when the buffer already holds `2 * SESSION_BUFFER_MAX` turns.
pub open spec fn pushed(old: Seq<(Speaker, Seq<char>)>, turn: (Speaker, Seq<char>)) -> Seq<
    (Speaker, Seq<char>),
> {
    if old.len() >= 2 * SESSION_BUFFER_MAX {
        old.drop_first().push(turn)
    } else {
        old.push(turn)
    }
}

/// The buffer keeps the most recent turns: after a push it holds the last
/// `min(n + 1, 2 * SESSION_BUFFER_MAX)` turns of the conversation so far,
/// oldest first, ending with the pushed one.
pub proof fn lemma_push_keeps_most_recent(old: Seq<(Speaker, Seq<char>)>, turn: (Speaker, Seq<char>))
    requires
        old.len() <= 2 * SESSION_BUFFER_MAX,
    ensures
        ({
            let all = old.push(turn);
            let keep = if all.len() > 2 * SESSION_BUFFER_MAX {
                2 * SESSION_BUFFER_MAX as int
            } else {
                all.len() as int
            };
            pushed(old, turn) == all.subrange(all.len() - keep, all.len() as int)
        }),
        pushed(old, turn).len() <= 2 * SESSION_BUFFER_MAX,
        pushed(old, turn).last() == turn,
{
    let all = old.push(turn);
    if old.len() >= 2 * SESSION_BUFFER_MAX {
        assert(old.drop_first().push(turn) =~= all.subrange(1, all.len() as int));
    } else {
        assert(all =~= all.subrange(0, all.len() as int));
    }
}

/// The bounded buffer of recent conversation turns.
pub struct SessionBuffer {
    turns: VecDeque<Turn>,
}

impl View for SessionBuffer {
    type V = Seq<(Speaker, Seq<char>)>;

    closed spec fn view(&self) -> Seq<(Speaker, Seq<char>)> {
        turns_view(self.turns@)
    }
}

impl SessionBuffer {
    /// The buffer never holds more than `2 * SESSION_BUFFER_MAX` turns.
    #[verifier::type_invariant]
    spec fn bounded(&self) -> bool {
        self.turns@.len() <= 2 * SESSION_BUFFER_MAX
    }

    /// An empty buffer.
    pub fn new() -> (b: SessionBuffer)
        ensures
            b@ == Seq::<(Speaker, Seq<char>)>::empty(),
    {
        let b = SessionBuffer { turns: VecDeque::new() };
        assert(b@ =~= Seq::<(Speaker, Seq<char>)>::empty());
        b
    }

    /// Number of turns held.
    pub fn len(&self) -> (n: usize)
        ensures
            n == self@.len(),
            n <= 2 * SESSION_BUFFER_MAX,
    {
        proof {
            use_type_invariant(self);
        }
        self.turns.len()
    }

    /// Appends a turn; when the buffer is full the oldest turn is dropped first.
    pub fn push(&mut self, speaker: Speaker, content: &str)
        ensures
            final(self)@ == pushed(old(self)@, (speaker, content@)),
            final(self)@.len() <= 2 * SESSION_BUFFER_MAX,
    {
        proof {
            use_type_invariant(&*self);
        }
        let ghost before = self.turns@;
        let turn = Turn::new(speaker, content);
        if self.turns.len() >= 2 * SESSION_BUFFER_MAX {
            let mut turns = VecDeque::new();
            std::mem::swap(&mut turns, &mut self.turns);
            let _ = turns.pop_front();
            turns.push_back(turn);
            assert(turns@ == before.drop_first().push(turn));
            self.turns = turns;
            assert(turns_view(before.drop_first().push(turn)) =~= turns_view(before).drop_first().push(
                turn@,
            ));
        } else {
            let mut turns = VecDeque::new();
            std::mem::swap(&mut turns, &mut self.turns);
            turns.push_back(turn);
            self.turns = turns;
            assert(turns_view(before.push(turn)) =~= turns_view(before).push(turn@));
        }
    }

    /// A copy of the turns held, oldest first.
    pub fn snapshot(&self) -> (v: Vec<Turn>)
        ensures
            turns_view(v@) == self@,
    {
        let mut v: Vec<Turn> = Vec::new();
        let n = self.turns.len();
        let mut i: usize = 0;
        while i < n
            invariant
                i <= n == self.turns@.len(),
                v@.len() == i,
                forall|k: int| 0 <= k < i ==> #[trigger] v@[k]@ == self.turns@[k]@,
            decreases n - i,
        {
            v.push(self.turns[i].duplicate());
            i += 1;
        }
        assert(turns_view(v@) =~= turns_view(self.turns@));
        v
    }

    /// When the buffer holds at least `SESSION_COMPRESS_THRESHOLD` turns, hands
    /// them over (oldest first) and empties the buffer; otherwise leaves it as is.
    pub fn take_for_compression(&mut self) -> (r: Option<Vec<Turn>>)
        ensures
            old(self)@.len() >= SESSION_COMPRESS_THRESHOLD ==> {
                &&& r is Some
                &&& turns_view(r->0@) == old(self)@
                &&& final(self)@ == Seq::<(Speaker, Seq<char>)>::empty()
            },
            old(self)@.len() < SESSION_COMPRESS_THRESHOLD ==> r is None && final(self)@ == old(
                self,
            )@,
    {
        if self.turns.len() >= SESSION_COMPRESS_THRESHOLD {
            let snap = self.snapshot();
            self.turns = VecDeque::new();
            assert(self@ =~= Seq::<(Speaker, Seq<char>)>::empty());
            Some(snap)
        } else {
            None
        }
    }
}

} // verus!
