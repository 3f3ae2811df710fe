//! Sessions and their identifiers.

use vstd::hash_set::StringHashSet;
use vstd::prelude::*;

use super::mounts::PresentationURI;
use crate::headers::{law_session_read_back, typed_session};
use crate::text::{chars_of, string_of};
use crate::url::UrlView;

verus! {

/// The characters that a session identifier is made of.
pub open spec fn session_id_chars() -> Seq<char> {
    "abcdefghijklmnopqrstuvwxyzABCDEFGHIJKLMNOPQRSTUVWXYZ0123456789-_.+"@
}

/// How many characters a new session identifier has.
pub const SESSION_ID_LENGTH: usize = 16;

/// The identifiers that the server makes up: distinct characters out of the set.
pub open spec fn is_new_session_id(id: Seq<char>) -> bool {
    &&& id.len() == SESSION_ID_LENGTH
    &&& id.no_duplicates()
    &&& forall|i: int| 0 <= i < id.len() ==> session_id_chars().contains(#[trigger] id[i])
}

/// `rand::seq::SliceRandom::choose_multiple` with the generator of the thread: `amount` of the
/// elements, all of them if there are fewer, in any order and each at most once.
///
/// Which ones and in what order is up to chance.
#[verifier::external_body]
fn choose_multiple(chars: &Vec<char>, amount: usize) -> (r: Vec<char>)
    ensures
        r@.len() == if amount <= chars@.len() {
            amount as nat
        } else {
            chars@.len()
        },
        forall|i: int| 0 <= i < r@.len() ==> chars@.contains(#[trigger] r@[i]),
        chars@.no_duplicates() ==> r@.no_duplicates(),
{
    let mut rng = rand::thread_rng();
    rand::seq::SliceRandom::choose_multiple(chars.as_slice(), &mut rng, amount).copied().collect()
}

/// The session identifiers in use.
pub struct SessionIds {
    pub in_use: StringHashSet,
}

impl SessionIds {
    /// The session identifiers in use.
    pub open spec fn view(self) -> Set<Seq<char>> {
        self.in_use@
    }

    /// No identifiers.
    pub fn new() -> (r: SessionIds)
        ensures
            r@ == Set::<Seq<char>>::empty(),
    {
        SessionIds { in_use: StringHashSet::new() }
    }

    /// Takes note of an identifier that came from elsewhere.
    pub fn register(&mut self, id: &str)
        ensures
            final(self)@ == old(self)@.insert(id@),
    {
        self.in_use.insert(id.to_owned());
    }

    /// Forgets an identifier that is no longer in use.
    pub fn release(&mut self, id: &str)
        ensures
            final(self)@ == old(self)@.remove(id@),
    {
        self.in_use.remove(id);
    }

    /// Takes the identifier made of `chars`, unless it is in use.
    pub fn take(&mut self, chars: &Vec<char>) -> (r: Option<String>)
        ensures
            match r {
                Some(id) => id@ == chars@ && !old(self)@.contains(id@) && final(self)@ == old(
                    self,
                )@.insert(id@),
                None => old(self)@.contains(chars@) && final(self)@ == old(self)@,
            },
    {
        let id = string_of(chars, 0, chars.len());
        proof {
            assert(chars@.subrange(0, chars@.len() as int) =~= chars@);
        }
        if self.in_use.contains(id.as_str()) {
            None
        } else {
            self.in_use.insert(id.clone());
            Some(id)
        }
    }

    /// Makes up an identifier that is not in use, and takes it.
    ///
    /// Tries as often as a counter can count. That all these tries hit an identifier in use is not
    /// ruled out as long as there is one, and then there is no new one.
    pub fn new_id(&mut self) -> (r: Option<String>)
        ensures
            match r {
                Some(id) => is_new_session_id(id@) && !old(self)@.contains(id@) && final(self)@
                    == old(self)@.insert(id@),
                None => final(self)@ == old(self)@ && exists|id: Seq<char>|
                    is_new_session_id(id) && old(self)@.contains(id),
            },
    {
        let alphabet = "abcdefghijklmnopqrstuvwxyzABCDEFGHIJKLMNOPQRSTUVWXYZ0123456789-_.+";
        let chars = chars_of(alphabet);
        proof {
            lemma_session_id_chars();
        }
        let mut tries: u64 = u64::MAX;
        while tries > 0
            invariant
                chars@ == session_id_chars(),
                chars@.no_duplicates(),
                chars@.len() == 66,
                self@ == old(self)@,
                tries < u64::MAX ==> exists|id: Seq<char>|
                    is_new_session_id(id) && old(self)@.contains(id),
            decreases tries,
        {
            let chosen = choose_multiple(&chars, SESSION_ID_LENGTH);
            proof {
                assert(is_new_session_id(chosen@));
            }
            if let Some(id) = self.take(&chosen) {
                return Some(id);
            }
            tries = tries - 1;
        }
        None
    }
}

/// A session, as it is seen in contracts.
#[verifier::ext_equal]
pub ghost struct SessionView {
    pub media_id: u128,
    pub client_id: Option<u128>,
    pub presentation_uri: UrlView,
    pub last_active: u64,
}

/// A session of the server.
pub struct Session {
    /// Media for this session.
    pub media_id: u128,
    /// Client for this session if there is one currently.
    pub client_id: Option<u128>,
    /// Presentation URI for this session.
    pub presentation_uri: PresentationURI,
    /// Last time this session was active, in nanoseconds.
    pub last_active: u64,
}

impl Session {
    /// What is known of this session.
    pub open spec fn view(self) -> SessionView {
        SessionView {
            media_id: self.media_id,
            client_id: self.client_id,
            presentation_uri: self.presentation_uri@,
            last_active: self.last_active,
        }
    }

    /// A copy of this session.
    pub fn copy(&self) -> (r: Session)
        ensures
            r == *self,
    {
        Session {
            media_id: self.media_id,
            client_id: self.client_id,
            presentation_uri: self.presentation_uri.copy(),
            last_active: self.last_active,
        }
    }
}

proof fn lemma_session_id_chars()
    ensures
        session_id_chars().len() == 66,
        session_id_chars().no_duplicates(),
{
    reveal_strlit("abcdefghijklmnopqrstuvwxyzABCDEFGHIJKLMNOPQRSTUVWXYZ0123456789-_.+");
}

/// An identifier that the server makes up has 16 characters, no two of them the same. It can stand
/// in a header, and reads as itself there.
pub proof fn law_made_up_id_reads_back(id: Seq<char>)
    requires
        is_new_session_id(id),
    ensures
        id.len() == 16,
        forall|i: int, j: int| 0 <= i < j < id.len() ==> id[i] != id[j],
        forall|i: int|
            0 <= i < id.len() ==> crate::transport::is_alphanumeric(#[trigger] id[i]) || id[i] == '-'
                || id[i] == '_' || id[i] == '.' || id[i] == '+',
        typed_session(Some(id)) == Ok::<Option<Seq<char>>, ()>(Some(id)),
{
    let chars = session_id_chars();
    reveal_strlit("abcdefghijklmnopqrstuvwxyzABCDEFGHIJKLMNOPQRSTUVWXYZ0123456789-_.+");
    assert forall|i: int| 0 <= i < id.len() implies crate::transport::is_alphanumeric(
        #[trigger] id[i],
    ) || id[i] == '-' || id[i] == '_' || id[i] == '.' || id[i] == '+' by {
        assert(chars.contains(id[i]));
        let k = choose|k: int| 0 <= k < chars.len() && chars[k] == id[i];
        assert(0 <= k < 66);
    }
    assert(!id.contains(';')) by {
        if id.contains(';') {
            let k = choose|k: int| 0 <= k < id.len() && id[k] == ';';
            assert(crate::transport::is_alphanumeric(id[k]) || id[k] == '-' || id[k] == '_' || id[k]
                == '.' || id[k] == '+');
        }
    }
    law_session_read_back(id, 0);
}

} // verus!
