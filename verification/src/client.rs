//! Client records: the persisted identity of a registered client, plus the
//! outbound sink while the client is connected.

use vstd::prelude::*;
use vstd::string::StringExecFns;

use crate::random::sample_alphanumeric;
use crate::sink::Tx;
use crate::text::is_alnum;
use crate::text::push_char;

verus! {

/// A registered client. The identity fields are persisted by the backing
/// store; the sink exists only while a connection is live.
pub struct Client {
    /// Sixteen-character identifier, generated once at registration and
    /// never reused.
    pub uuid: String,
    /// The bearer credential, rotatable.
    pub token: String,
    pub username: String,
    pub display_name: String,
    pub about_me: String,
    /// The outbound sink, attached once the transport handshake completes.
    pub tx: Option<Tx>,
}

/// Shape of a generated identifier: sixteen characters, three alphanumeric
/// then a dash, four times over.
pub open spec fn uuid_shape(s: Seq<char>) -> bool {
    &&& s.len() == 16
    &&& forall|i: int|
        0 <= i < 16 ==> (if i % 4 == 3 {
            s[i] == '-'
        } else {
            is_alnum(#[trigger] s[i])
        })
}

/// Shape of a generated credential: sixteen alphanumeric characters.
pub open spec fn token_shape(s: Seq<char>) -> bool {
    &&& s.len() == 16
    &&& forall|i: int| 0 <= i < 16 ==> is_alnum(#[trigger] s[i])
}

/// The two records carry the same persisted identity; the sinks may differ.
pub open spec fn same_record(a: Client, b: Client) -> bool {
    &&& a.uuid@ == b.uuid@
    &&& a.token@ == b.token@
    &&& a.username@ == b.username@
    &&& a.display_name@ == b.display_name@
    &&& a.about_me@ == b.about_me@
}

impl Client {
    /// A fresh sixteen-character credential.
    fn generate_token() -> (r: String)
        ensures
            token_shape(r@),
    {
        sample_alphanumeric(16)
    }

    /// A fresh identifier: four dash-terminated groups of three
    /// alphanumeric characters.
    fn generate_uuid() -> (r: String)
        ensures
            uuid_shape(r@),
    {
        let mut s = String::new();
        let mut k: usize = 0;
        while k < 4
            invariant
                0 <= k <= 4,
                s@.len() == 4 * k,
                forall|i: int|
                    0 <= i < s@.len() ==> (if i % 4 == 3 {
                        s@[i] == '-'
                    } else {
                        is_alnum(#[trigger] s@[i])
                    }),
            decreases 4 - k,
        {
            let part = sample_alphanumeric(3);
            s.append(part.as_str());
            push_char(&mut s, '-');
            k += 1;
        }
        s
    }

    /// A new registered client: fresh identifier and credential, the display
    /// name starting out as the username, no sink.
    pub fn new(username: &str) -> (r: Client)
        ensures
            uuid_shape(r.uuid@),
            token_shape(r.token@),
            r.username@ == username@,
            r.display_name@ == username@,
            r.about_me@ == Seq::<char>::empty(),
            r.tx is None,
    {
        Client {
            uuid: Self::generate_uuid(),
            token: Self::generate_token(),
            username: username.to_owned(),
            display_name: username.to_owned(),
            about_me: String::new(),
            tx: None,
        }
    }

    /// Replaces the credential with a fresh one; everything else is kept.
    pub fn regenerate_token(&mut self)
        ensures
            token_shape(final(self).token@),
            final(self).uuid == old(self).uuid,
            final(self).username == old(self).username,
            final(self).display_name == old(self).display_name,
            final(self).about_me == old(self).about_me,
            final(self).tx == old(self).tx,
    {
        self.token = Self::generate_token();
    }

    pub fn get_token(&self) -> (r: String)
        ensures
            r@ == self.token@,
    {
        self.token.clone()
    }

    pub fn get_uuid(&self) -> (r: String)
        ensures
            r@ == self.uuid@,
    {
        self.uuid.clone()
    }

    /// Whether the two records carry the same persisted identity; the sinks
    /// are not compared.
    pub fn eq_record(&self, other: &Client) -> (r: bool)
        ensures
            r == same_record(*self, *other),
    {
        crate::text::str_eq(self.uuid.as_str(), other.uuid.as_str()) && crate::text::str_eq(
            self.token.as_str(),
            other.token.as_str(),
        ) && crate::text::str_eq(self.username.as_str(), other.username.as_str())
            && crate::text::str_eq(self.display_name.as_str(), other.display_name.as_str())
            && crate::text::str_eq(self.about_me.as_str(), other.about_me.as_str())
    }

    /// A copy of the persisted identity without a sink, as the backing
    /// store hands records out.
    pub fn clone_record(&self) -> (r: Client)
        ensures
            same_record(r, *self),
            r.tx is None,
    {
        Client {
            uuid: self.uuid.clone(),
            token: self.token.clone(),
            username: self.username.clone(),
            display_name: self.display_name.clone(),
            about_me: self.about_me.clone(),
            tx: None,
        }
    }

    /// A full copy; a present sink is cloned into another handle to the
    /// same queue.
    pub fn duplicate(&self) -> (r: Client)
        ensures
            same_record(r, *self),
            r.tx is Some <==> self.tx is Some,
    {
        let tx = match &self.tx {
            Some(t) => Some(t.clone()),
            None => None,
        };
        Client {
            uuid: self.uuid.clone(),
            token: self.token.clone(),
            username: self.username.clone(),
            display_name: self.display_name.clone(),
            about_me: self.about_me.clone(),
            tx,
        }
    }
}

} // verus!
