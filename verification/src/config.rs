//! Credential entries and the record they are read from.

use crate::cluster::{absent, is_absent, ApiFailure};
use crate::text::{copy_all, copy_bytes, holds, same, texts};
use vstd::string::*;
use vstd::prelude::*;

verus! {

/// What a credential entry says, as plain sequences.
pub struct ConfigView {
    pub server: Seq<char>,
    pub username: Seq<char>,
    pub password: Seq<char>,
    pub namespaces: Seq<Seq<char>>,
}

/// The name that selects every namespace.
pub open spec fn wildcard() -> Seq<char> {
    "*"@
}

impl ConfigView {
    /// Whether the entry is meant for `namespace`: its selector names the
    /// namespace, or holds the wildcard.
    pub open spec fn selects(self, namespace: Seq<char>) -> bool {
        self.namespaces.contains(wildcard()) || self.namespaces.contains(namespace)
    }
}

/// One registry credential: the registry's endpoint, which identifies the
/// entry and names its secret, the login, and the namespaces it is meant for.
#[derive(Debug, Clone)]
pub struct Config {
    server: String,
    username: String,
    password: String,
    namespaces: Vec<String>,
}

impl View for Config {
    type V = ConfigView;

    closed spec fn view(&self) -> ConfigView {
        ConfigView {
            server: self.server@,
            username: self.username@,
            password: self.password@,
            namespaces: texts(self.namespaces@),
        }
    }
}

impl Default for Config {
    /// An entry with empty texts that names no namespace.
    fn default() -> (cfg: Self)
        ensures
            cfg@ == (ConfigView {
                server: Seq::empty(),
                username: Seq::empty(),
                password: Seq::empty(),
                namespaces: Seq::empty(),
            }),
    {
        let cfg = Config {
            server: String::new(),
            username: String::new(),
            password: String::new(),
            namespaces: Vec::new(),
        };
        assert(texts(cfg.namespaces@) =~= Seq::<Seq<char>>::empty());
        cfg
    }
}

impl Config {
    /// An entry for `server` with the given login and selector.
    pub fn new(server: String, username: String, password: String, namespaces: Vec<String>) -> (cfg:
        Self)
        ensures
            cfg@ == (ConfigView {
                server: server@,
                username: username@,
                password: password@,
                namespaces: texts(namespaces@),
            }),
    {
        Config { server, username, password, namespaces }
    }

    /// The registry's endpoint.
    pub fn server(&self) -> (s: &str)
        ensures
            s@ == self@.server,
    {
        self.server.as_str()
    }

    /// The login name.
    pub fn username(&self) -> (s: &str)
        ensures
            s@ == self@.username,
    {
        self.username.as_str()
    }

    /// The password or token.
    pub fn password(&self) -> (s: &str)
        ensures
            s@ == self@.password,
    {
        self.password.as_str()
    }

    /// The selector: the namespaces that the entry names.
    pub fn namespaces(&self) -> (list: Vec<String>)
        ensures
            texts(list@) == self@.namespaces,
    {
        copy_all(&self.namespaces)
    }

    /// Whether the entry is meant for `namespace`.
    pub fn selects(&self, namespace: &str) -> (r: bool)
        ensures
            r == self@.selects(namespace@),
    {
        holds(&self.namespaces, "*") || holds(&self.namespaces, namespace)
    }

    /// A copy of the entry.
    pub fn duplicate(&self) -> (cfg: Self)
        ensures
            cfg@ == self@,
    {
        Config {
            server: self.server.clone(),
            username: self.username.clone(),
            password: self.password.clone(),
            namespaces: copy_all(&self.namespaces),
        }
    }
}

/// Why a configuration could not be loaded.
#[derive(Debug, Clone, Copy, PartialEq, Eq, Structural)]
pub enum Error {
    /// The record could not be read, for another reason than its absence.
    Api(ApiFailure),
    /// The record, or the field in it, is absent.
    NotFound,
    /// The field does not decode to a list of entries.
    Malformed,
}

/// The field of the configuration record that holds the entries.
pub open spec fn data_key() -> Seq<char> {
    "registry_secrets"@
}

/// The views of a record's fields: names and contents, in order.
pub open spec fn fields(data: Seq<(String, Vec<u8>)>) -> Seq<(Seq<char>, Seq<u8>)> {
    Seq::new(data.len(), |i: int| (data[i].0@, data[i].1@))
}

/// The first field of `data` named `key`, if any.
pub open spec fn field_at(data: Seq<(Seq<char>, Seq<u8>)>, key: Seq<char>) -> Option<Seq<u8>>
    decreases data.len(),
{
    if data.len() == 0 {
        None
    } else if data[0].0 == key {
        Some(data[0].1)
    } else {
        field_at(data.drop_first(), key)
    }
}

/// The content that loading yields: the field `key` of the record, where the
/// record has data and the data has that field.
pub open spec fn located(data: Option<Seq<(Seq<char>, Seq<u8>)>>, key: Seq<char>) -> Result<
    Seq<u8>,
    Error,
> {
    match data {
        None => Err(Error::NotFound),
        Some(list) => match field_at(list, key) {
            None => Err(Error::NotFound),
            Some(bytes) => Ok(bytes),
        },
    }
}

/// The view of a record's data, where it has any.
pub open spec fn data_view(data: Option<Vec<(String, Vec<u8>)>>) -> Option<
    Seq<(Seq<char>, Seq<u8>)>,
> {
    match data {
        None => None,
        Some(list) => Some(fields(list@)),
    }
}

fn find_field(list: &Vec<(String, Vec<u8>)>, key: &str) -> (r: Option<Vec<u8>>)
    ensures
        r is Some <==> field_at(fields(list@), key@) is Some,
        r matches Some(bytes) ==> field_at(fields(list@), key@) == Some(bytes@),
{
    let mut i: usize = 0;
    proof {
        assert(fields(list@).skip(0) =~= fields(list@));
    }
    while i < list.len()
        invariant
            i <= list.len(),
            field_at(fields(list@), key@) == field_at(fields(list@).skip(i as int), key@),
        decreases list.len() - i,
    {
        let ghost rest = fields(list@).skip(i as int);
        proof {
            assert(rest[0] == fields(list@)[i as int]);
            assert(rest.drop_first() =~= fields(list@).skip(i as int + 1));
        }
        if same(list[i].0.as_str(), key) {
            return Some(copy_bytes(&list[i].1));
        }
        i = i + 1;
    }
    None
}

/// Looks up the field `key` in a record's data: its content where the record
/// has data with such a field, `NotFound` otherwise.
pub fn locate(data: &Option<Vec<(String, Vec<u8>)>>, key: &str) -> (r: Result<Vec<u8>, Error>)
    ensures
        r is Ok <==> located(data_view(*data), key@) is Ok,
        r matches Ok(bytes) ==> located(data_view(*data), key@) == Ok::<Seq<u8>, Error>(bytes@),
        r matches Err(e) ==> e == Error::NotFound,
{
    match data {
        None => Err(Error::NotFound),
        Some(list) => match find_field(list, key) {
            None => Err(Error::NotFound),
            Some(bytes) => Ok(bytes),
        },
    }
}

/// What loading yields, given what reading the record gave: the field `key`
/// of the record. A record that does not exist is `NotFound`, as is one
/// without data or without the field; another failure of the read is handed
/// on.
pub open spec fn loaded(
    record: Result<Option<Seq<(Seq<char>, Seq<u8>)>>, ApiFailure>,
    key: Seq<char>,
) -> Result<Seq<u8>, Error> {
    match record {
        Err(failure) => if is_absent(failure) {
            Err(Error::NotFound)
        } else {
            Err(Error::Api(failure))
        },
        Ok(data) => located(data, key),
    }
}

/// The view of what reading a record gave.
pub open spec fn record_view(record: Result<Option<Vec<(String, Vec<u8>)>>, ApiFailure>) -> Result<
    Option<Seq<(Seq<char>, Seq<u8>)>>,
    ApiFailure,
> {
    match record {
        Err(failure) => Err(failure),
        Ok(data) => Ok(data_view(data)),
    }
}

/// Where the configuration record lives.
pub struct ConfigFactory {
    namespace: String,
    secret: String,
}

impl ConfigFactory {
    /// A factory that reads the record `secret` in `namespace`.
    pub fn new(secret: String, namespace: String) -> (factory: Self)
        ensures
            factory.secret_name() == secret@,
            factory.namespace_name() == namespace@,
    {
        ConfigFactory { namespace, secret }
    }

    /// The name of the record.
    pub closed spec fn secret_name(&self) -> Seq<char> {
        self.secret@
    }

    /// The namespace of the record.
    pub closed spec fn namespace_name(&self) -> Seq<char> {
        self.namespace@
    }

    /// Finds the encoded entries, given what reading the record gave.
    pub fn read_config(&self, record: &Result<Option<Vec<(String, Vec<u8>)>>, ApiFailure>) -> (r:
        Result<Vec<u8>, Error>)
        ensures
            r is Ok <==> loaded(record_view(*record), data_key()) is Ok,
            r matches Ok(bytes) ==> loaded(record_view(*record), data_key()) == Ok::<
                Seq<u8>,
                Error,
            >(bytes@),
            r matches Err(e) ==> loaded(record_view(*record), data_key()) == Err::<Seq<u8>, Error>(e),
    {
        match record {
            Err(failure) => {
                if absent(*failure) {
                    Err(Error::NotFound)
                } else {
                    Err(Error::Api(*failure))
                }
            },
            Ok(data) => locate(data, "registry_secrets"),
        }
    }

    /// The name of the record.
    pub fn secret(&self) -> (s: &str)
        ensures
            s@ == self.secret_name(),
    {
        self.secret.as_str()
    }

    /// The namespace of the record.
    pub fn namespace(&self) -> (s: &str)
        ensures
            s@ == self.namespace_name(),
    {
        self.namespace.as_str()
    }
}

} // verus!
