use vstd::prelude::*;
use crate::error::{Error, ErrorKind};
use crate::json::{escaped, push_escaped, record_json, render_record};
use crate::keys::{rsa_from_private_pem, rsa_generate, rsa_private_pem, rsa_public_pem};
use crate::text::{chars_to_string, push_str_chars};

verus! {

/// The mathematical content of an actor: its name and the two PEM encodings
/// of its key pair.
pub struct ActorView {
    pub name: Seq<char>,
    pub public_pem: Seq<char>,
    pub private_pem: Seq<char>,
}

/// The persisted record of an actor: its name and the PEM text of its private
/// key. The public key is derivable from the private key and is never stored.
#[derive(Debug)]
pub struct Record {
    pub name: String,
    pub private_key_pem: String,
}

/// A named entity owning one key pair, immutable once constructed.
#[derive(Debug)]
pub struct Actor {
    name: String,
    public_pem: String,
    private_pem: String,
}

impl View for Actor {
    type V = ActorView;

    closed spec fn view(&self) -> ActorView {
        ActorView {
            name: self.name@,
            public_pem: self.public_pem@,
            private_pem: self.private_pem@,
        }
    }
}

/// The actor document: a minimal ActivityPub `Person`, with all URLs built
/// from the base domain and the actor's name.
pub open spec fn actor_document(name: Seq<char>, public_pem: Seq<char>, domain: Seq<char>) -> Seq<
    char,
> {
    "{\"@context\":[\"https://www.w3.org/ns/activitystreams\",\"https://w3id.org/security/v1\"],\"id\":\"https://"@
        + escaped(domain) + "/"@ + escaped(name) + "\",\"type\":\"Person\",\"preferredUsername\":\""@
        + escaped(name) + "\",\"inbox\":\"https://"@ + escaped(domain)
        + "/inbox\",\"publicKey\":{\"id\":\"https://"@ + escaped(domain) + "/"@ + escaped(name)
        + "#main-key\",\"owner\":\"https://"@ + escaped(domain) + "/"@ + escaped(name)
        + "\",\"publicKeyPem\":\""@ + escaped(public_pem) + "\"}}"@
}

/// The WebFinger document: the `acct:` subject and a single self link to the
/// actor document.
pub open spec fn webfinger_document(name: Seq<char>, domain: Seq<char>) -> Seq<char> {
    "{\"subject\":\"acct:"@ + escaped(name) + "@"@ + escaped(domain)
        + "\",\"links\":[{\"rel\":\"self\",\"type\":\"application/activitypub+json\",\"href\":\"https://"@
        + escaped(domain) + "/"@ + escaped(name) + "\"}]}"@
}

impl Actor {
    /// Creates an actor with a freshly generated key pair. The name must be
    /// path-safe before it reaches the store or the documents;
    /// [`crate::store::is_fs_safe_name`] decides that.
    pub fn new(name: &str) -> (r: Result<Actor, Error>)
        requires
            crate::store::fs_safe_name(name@),
        ensures
            r matches Ok(a) ==> a@.name == name@,
            r matches Err(e) ==> e.kind == ErrorKind::Security && e.message is Some,
    {
        let key = match rsa_generate() {
            Ok(k) => k,
            Err(m) => { return Err(Error::debug(m, ErrorKind::Security)); },
        };
        let private_pem = match rsa_private_pem(&key) {
            Ok(s) => s,
            Err(m) => { return Err(Error::debug(m, ErrorKind::Security)); },
        };
        let public_pem = match rsa_public_pem(&key) {
            Ok(s) => s,
            Err(m) => { return Err(Error::debug(m, ErrorKind::Security)); },
        };
        Ok(Actor { name: name.to_owned(), public_pem, private_pem })
    }

    /// Reconstructs an actor from its persisted record, deriving the public
    /// key from the stored private key. A key text too large for the
    /// decoder's buffer is always rejected, as a `Security` error without a
    /// diagnostic; every other failure comes from the key library and
    /// carries its diagnostic.
    pub fn from_record(rec: &Record) -> (r: Result<Actor, Error>)
        ensures
            r matches Ok(a) ==> a@.name == rec.name@,
            r matches Err(e) ==> e.kind == ErrorKind::Security,
            rec.private_key_pem@.len() > crate::keys::MAX_PEM_CHARS ==> (r matches Err(e)
                && e.message is None),
            rec.private_key_pem@.len() <= crate::keys::MAX_PEM_CHARS ==> (r matches Err(e)
                ==> e.message is Some),
    {
        if rec.private_key_pem.as_str().unicode_len() > crate::keys::MAX_PEM_CHARS {
            return Err(Error::empty(ErrorKind::Security));
        }
        let key = match rsa_from_private_pem(rec.private_key_pem.as_str()) {
            Ok(k) => k,
            Err(m) => { return Err(Error::debug(m, ErrorKind::Security)); },
        };
        let private_pem = match rsa_private_pem(&key) {
            Ok(s) => s,
            Err(m) => { return Err(Error::debug(m, ErrorKind::Security)); },
        };
        let public_pem = match rsa_public_pem(&key) {
            Ok(s) => s,
            Err(m) => { return Err(Error::debug(m, ErrorKind::Security)); },
        };
        Ok(Actor { name: rec.name.clone(), public_pem, private_pem })
    }

    /// The persisted record of this actor. The record keeps the name and the
    /// private-key text unchanged.
    pub fn to_record(&self) -> (r: Record)
        ensures
            r.name@ == self@.name,
            r.private_key_pem@ == self@.private_pem,
    {
        Record { name: self.name.clone(), private_key_pem: self.private_pem.clone() }
    }

    /// The canonical text of this actor's persisted record.
    pub fn record_text(&self) -> (r: String)
        ensures
            r@ == record_json(self@.name, self@.private_pem),
    {
        render_record(self.name.as_str(), self.private_pem.as_str())
    }

    pub fn name(&self) -> (r: &String)
        ensures
            r@ == self@.name,
    {
        &self.name
    }

    pub fn public_pem(&self) -> (r: &String)
        ensures
            r@ == self@.public_pem,
    {
        &self.public_pem
    }

    pub fn private_pem(&self) -> (r: &String)
        ensures
            r@ == self@.private_pem,
    {
        &self.private_pem
    }

    /// Renders the ActivityPub actor document for this actor under the given
    /// base domain.
    pub fn json(&self, domain: &str) -> (r: Result<String, Error>)
        ensures
            r matches Ok(s) && s@ == actor_document(self@.name, self@.public_pem, domain@),
    {
        let mut out: Vec<char> = Vec::new();
        push_str_chars(
            &mut out,
            "{\"@context\":[\"https://www.w3.org/ns/activitystreams\",\"https://w3id.org/security/v1\"],\"id\":\"https://",
        );
        push_escaped(&mut out, domain);
        push_str_chars(&mut out, "/");
        push_escaped(&mut out, self.name.as_str());
        push_str_chars(&mut out, "\",\"type\":\"Person\",\"preferredUsername\":\"");
        push_escaped(&mut out, self.name.as_str());
        push_str_chars(&mut out, "\",\"inbox\":\"https://");
        push_escaped(&mut out, domain);
        push_str_chars(&mut out, "/inbox\",\"publicKey\":{\"id\":\"https://");
        push_escaped(&mut out, domain);
        push_str_chars(&mut out, "/");
        push_escaped(&mut out, self.name.as_str());
        push_str_chars(&mut out, "#main-key\",\"owner\":\"https://");
        push_escaped(&mut out, domain);
        push_str_chars(&mut out, "/");
        push_escaped(&mut out, self.name.as_str());
        push_str_chars(&mut out, "\",\"publicKeyPem\":\"");
        push_escaped(&mut out, self.public_pem.as_str());
        push_str_chars(&mut out, "\"}}");
        proof {
            assert(out@ =~= actor_document(self@.name, self@.public_pem, domain@));
        }
        Ok(chars_to_string(&out))
    }

    /// Renders the WebFinger document for this actor under the given base
    /// domain.
    pub fn webfinger(&self, domain: &str) -> (r: Result<String, Error>)
        ensures
            r matches Ok(s) && s@ == webfinger_document(self@.name, domain@),
    {
        let mut out: Vec<char> = Vec::new();
        push_str_chars(&mut out, "{\"subject\":\"acct:");
        push_escaped(&mut out, self.name.as_str());
        push_str_chars(&mut out, "@");
        push_escaped(&mut out, domain);
        push_str_chars(
            &mut out,
            "\",\"links\":[{\"rel\":\"self\",\"type\":\"application/activitypub+json\",\"href\":\"https://",
        );
        push_escaped(&mut out, domain);
        push_str_chars(&mut out, "/");
        push_escaped(&mut out, self.name.as_str());
        push_str_chars(&mut out, "\"}]}");
        proof {
            assert(out@ =~= webfinger_document(self@.name, domain@));
        }
        Ok(chars_to_string(&out))
    }
}

} // verus!
