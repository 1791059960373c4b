//! The reconciling decisions: which secret to write for an entry, and how to
//! bind a workload identity to it.

use crate::auth::{blob_text, RegistryAuth};
use crate::cluster::{
    absent, classified, classify, is_absent, IdentityRead, IdentityReadView, IdentityWrite,
    IdentityWriteView, SecretRead, SecretReadView, SecretWrite, SecretWriteView, SyncError,
};
use crate::config::{data_key, data_view, locate, located, Config, ConfigView, Error};
use crate::json::{json_string, quote};
use crate::text::{holds, same, texts};
use vstd::prelude::*;
use vstd::string::*;

verus! {

/// The document that patches the blob of a secret, and nothing else of it.
pub open spec fn secret_patch_text(blob: Seq<char>) -> Seq<char> {
    "{\"data\":{\".dockerconfigjson\":\""@ + blob + "\"}}"@
}

/// The document that creates a registry secret, given the JSON string
/// literals of its name and namespace, and its blob.
pub open spec fn secret_manifest_text(
    name_lit: Seq<char>,
    namespace_lit: Seq<char>,
    blob: Seq<char>,
) -> Seq<char> {
    "{\"apiVersion\":\"v1\",\"data\":{\".dockerconfigjson\":\""@ + blob
        + "\"},\"kind\":\"Secret\",\"metadata\":{\"name\":"@ + name_lit + ",\"namespace\":"@
        + namespace_lit + "},\"type\":\"kubernetes.io/dockerconfigjson\"}"@
}

/// One reference of an identity, given the JSON string literal of the
/// secret's name.
pub open spec fn reference_text(name_lit: Seq<char>) -> Seq<char> {
    "{\"name\":"@ + name_lit + "}"@
}

/// The references of an identity, separated by commas.
pub open spec fn references_text(name_lits: Seq<Seq<char>>) -> Seq<char>
    decreases name_lits.len(),
{
    if name_lits.len() == 0 {
        Seq::empty()
    } else if name_lits.len() == 1 {
        reference_text(name_lits[0])
    } else {
        references_text(name_lits.drop_last()) + ","@ + reference_text(name_lits.last())
    }
}

/// The document that patches the references of an identity, given the JSON
/// string literals of the secrets' names.
pub open spec fn identity_patch_text(name_lits: Seq<Seq<char>>) -> Seq<char> {
    "{\"imagePullSecrets\":["@ + references_text(name_lits) + "]}"@
}

/// The JSON string literals of a list of names.
pub open spec fn literals(names: Seq<Seq<char>>) -> Seq<Seq<char>> {
    Seq::new(names.len(), |i: int| json_string(names[i]))
}

/// The field of a registry secret's data that holds the blob.
pub open spec fn blob_field_text() -> Seq<char> {
    ".dockerconfigjson"@
}

/// The field of a registry secret's data that holds the blob.
pub fn blob_field() -> (name: &'static str)
    ensures
        name@ == blob_field_text(),
{
    ".dockerconfigjson"
}

/// Writes the document that patches the blob of a secret.
pub fn secret_patch(blob: &str) -> (text: String)
    ensures
        text@ == secret_patch_text(blob@),
{
    let mut out = String::from_str("{\"data\":{\".dockerconfigjson\":\"");
    out.append(blob);
    out.append("\"}}");
    out
}

/// Writes the document that creates a registry secret.
pub fn secret_manifest(name_lit: &str, namespace_lit: &str, blob: &str) -> (text: String)
    ensures
        text@ == secret_manifest_text(name_lit@, namespace_lit@, blob@),
{
    let mut out = String::from_str("{\"apiVersion\":\"v1\",\"data\":{\".dockerconfigjson\":\"");
    out.append(blob);
    out.append("\"},\"kind\":\"Secret\",\"metadata\":{\"name\":");
    out.append(name_lit);
    out.append(",\"namespace\":");
    out.append(namespace_lit);
    out.append("},\"type\":\"kubernetes.io/dockerconfigjson\"}");
    out
}

/// Writes the document that patches the references of an identity.
pub fn identity_patch(name_lits: &Vec<String>) -> (text: String)
    ensures
        text@ == identity_patch_text(texts(name_lits@)),
{
    let mut out = String::from_str("{\"imagePullSecrets\":[");
    let ghost open = out@;
    let ghost lits = texts(name_lits@);
    let mut i: usize = 0;
    proof {
        assert(lits.take(0) =~= Seq::<Seq<char>>::empty());
        assert(open + references_text(lits.take(0)) =~= open);
    }
    while i < name_lits.len()
        invariant
            i <= name_lits.len(),
            lits == texts(name_lits@),
            out@ == open + references_text(lits.take(i as int)),
        decreases name_lits.len() - i,
    {
        let ghost before = out@;
        if i > 0 {
            out.append(",");
        }
        out.append("{\"name\":");
        out.append(name_lits[i].as_str());
        out.append("}");
        proof {
            let now = lits.take(i as int + 1);
            assert(now.drop_last() =~= lits.take(i as int));
            assert(now.last() == name_lits@[i as int]@);
            if i > 0 {
                assert(out@ =~= open + (references_text(lits.take(i as int)) + ","@
                    + reference_text(now.last())));
            } else {
                assert(now.len() == 1);
                assert(now[0] == now.last());
                assert(out@ =~= open + reference_text(now.last()));
            }
        }
        i = i + 1;
    }
    proof {
        assert(lits.take(i as int) =~= lits);
    }
    out.append("]}");
    out
}

/// What is to be done about the secret of a pair.
#[derive(Debug)]
pub enum SecretAction {
    /// The entry is not meant for the namespace: nothing is written.
    Skip,
    /// The secret stores the entry's blob already: nothing is written.
    Keep,
    /// The secret exists with another blob: patch the blob.
    Patch(SecretWrite),
    /// The secret does not exist: create it.
    Create(SecretWrite),
    /// The read failed otherwise: the pair fails.
    Fail(SyncError),
}

/// What is to be done about the secret of a pair, as plain sequences.
pub enum SecretActionView {
    Skip,
    Keep,
    Patch(SecretWriteView),
    Create(SecretWriteView),
    Fail(SyncError),
}

impl View for SecretAction {
    type V = SecretActionView;

    open spec fn view(&self) -> SecretActionView {
        match *self {
            SecretAction::Skip => SecretActionView::Skip,
            SecretAction::Keep => SecretActionView::Keep,
            SecretAction::Patch(write) => SecretActionView::Patch(write@),
            SecretAction::Create(write) => SecretActionView::Create(write@),
            SecretAction::Fail(error) => SecretActionView::Fail(error),
        }
    }
}

/// The blob that the secret of an entry stores.
pub open spec fn entry_blob(cfg: ConfigView) -> Seq<char> {
    blob_text(cfg.server, cfg.username, cfg.password)
}

/// What is to be done about the secret of an entry in a namespace, given what
/// reading it gave. The secret bears the name of the entry's endpoint.
pub open spec fn secret_action(
    namespace: Seq<char>,
    cfg: ConfigView,
    read: SecretReadView,
) -> SecretActionView {
    let blob = entry_blob(cfg);
    if !cfg.selects(namespace) {
        SecretActionView::Skip
    } else {
        match read {
            SecretReadView::Found(stored) => if stored == Some(blob) {
                SecretActionView::Keep
            } else {
                SecretActionView::Patch(
                    SecretWriteView {
                        namespace,
                        name: cfg.server,
                        blob,
                        body: secret_patch_text(blob),
                    },
                )
            },
            SecretReadView::Failed(failure) => if is_absent(failure) {
                SecretActionView::Create(
                    SecretWriteView {
                        namespace,
                        name: cfg.server,
                        blob,
                        body: secret_manifest_text(
                            json_string(cfg.server),
                            json_string(namespace),
                            blob,
                        ),
                    },
                )
            } else {
                SecretActionView::Fail(classified(failure))
            },
        }
    }
}

/// What is to be done about a workload identity.
#[derive(Debug)]
pub enum BindAction {
    /// The identity refers to the secret already: nothing is written.
    Keep,
    /// The identity does not refer to the secret: patch its references.
    Patch(IdentityWrite),
    /// The read failed: the pair fails.
    Fail(SyncError),
}

/// What is to be done about a workload identity, as plain sequences.
pub enum BindActionView {
    Keep,
    Patch(IdentityWriteView),
    Fail(SyncError),
}

impl View for BindAction {
    type V = BindActionView;

    open spec fn view(&self) -> BindActionView {
        match *self {
            BindAction::Keep => BindActionView::Keep,
            BindAction::Patch(write) => BindActionView::Patch(write@),
            BindAction::Fail(error) => BindActionView::Fail(error),
        }
    }
}

/// The references of an identity once it is bound to `secret_name`: as they
/// were where the name is among them, else with the name behind them.
pub open spec fn bound(refs: Seq<Seq<char>>, secret_name: Seq<char>) -> Seq<Seq<char>> {
    if refs.contains(secret_name) {
        refs
    } else {
        refs.push(secret_name)
    }
}

/// What is to be done about the identity `identity` of a namespace so that it
/// refers to `secret_name`, given what reading it gave. An identity that does
/// not exist is a fatal error, as is every failure that will not pass by
/// itself.
pub open spec fn bind_action(
    identity: Seq<char>,
    namespace: Seq<char>,
    secret_name: Seq<char>,
    read: IdentityReadView,
) -> BindActionView {
    match read {
        IdentityReadView::Found(refs) => if refs.contains(secret_name) {
            BindActionView::Keep
        } else {
            BindActionView::Patch(
                IdentityWriteView {
                    namespace,
                    name: identity,
                    refs: bound(refs, secret_name),
                    body: identity_patch_text(literals(bound(refs, secret_name))),
                },
            )
        },
        IdentityReadView::Failed(failure) => BindActionView::Fail(classified(failure)),
    }
}

fn quote_all(names: &Vec<String>) -> (lits: Vec<String>)
    ensures
        texts(lits@) == literals(texts(names@)),
{
    let mut out: Vec<String> = Vec::new();
    let mut i: usize = 0;
    while i < names.len()
        invariant
            i <= names.len(),
            out.len() == i,
            forall|k: int| 0 <= k < i ==> out@[k]@ == json_string(names@[k]@),
        decreases names.len() - i,
    {
        out.push(quote(names[i].as_str()));
        i = i + 1;
    }
    assert(texts(out@) =~= literals(texts(names@)));
    out
}

/// The names that a worker goes by, as plain sequences.
pub struct WorkerView {
    pub cfg_ns: Seq<char>,
    pub cfg_name: Seq<char>,
    pub cfg_data_key: Seq<char>,
    pub sa_name: Seq<char>,
}

/// The name of the workload identity that every namespace has.
pub open spec fn default_identity() -> Seq<char> {
    "default"@
}

/// The reconciler's settings: where the configuration record lives, which
/// field of it holds the entries, and which workload identity is bound.
pub struct SyncWorker {
    cfg_ns: String,
    cfg_name: String,
    cfg_data_key: String,
    sa_name: String,
}

impl View for SyncWorker {
    type V = WorkerView;

    closed spec fn view(&self) -> WorkerView {
        WorkerView {
            cfg_ns: self.cfg_ns@,
            cfg_name: self.cfg_name@,
            cfg_data_key: self.cfg_data_key@,
            sa_name: self.sa_name@,
        }
    }
}

impl SyncWorker {
    /// A worker for the configuration record `cfg_name` in `cfg_ns`.
    pub fn new(cfg_ns: &str, cfg_name: &str) -> (worker: Self)
        ensures
            worker@ == (WorkerView {
                cfg_ns: cfg_ns@,
                cfg_name: cfg_name@,
                cfg_data_key: data_key(),
                sa_name: default_identity(),
            }),
    {
        SyncWorker {
            cfg_ns: String::from_str(cfg_ns),
            cfg_name: String::from_str(cfg_name),
            cfg_data_key: String::from_str("registry_secrets"),
            sa_name: String::from_str("default"),
        }
    }

    /// A copy of the worker.
    pub fn duplicate(&self) -> (worker: Self)
        ensures
            worker@ == self@,
    {
        SyncWorker {
            cfg_ns: self.cfg_ns.clone(),
            cfg_name: self.cfg_name.clone(),
            cfg_data_key: self.cfg_data_key.clone(),
            sa_name: self.sa_name.clone(),
        }
    }

    /// The namespace of the configuration record.
    pub fn cfg_ns(&self) -> (s: &str)
        ensures
            s@ == self@.cfg_ns,
    {
        self.cfg_ns.as_str()
    }

    /// The name of the configuration record.
    pub fn cfg_name(&self) -> (s: &str)
        ensures
            s@ == self@.cfg_name,
    {
        self.cfg_name.as_str()
    }

    /// The name of the workload identity that is bound.
    pub fn sa_name(&self) -> (s: &str)
        ensures
            s@ == self@.sa_name,
    {
        self.sa_name.as_str()
    }

    /// Finds the encoded entries in the data of the configuration record.
    pub fn read_data(&self, data: &Option<Vec<(String, Vec<u8>)>>) -> (r: Result<Vec<u8>, Error>)
        ensures
            r is Ok <==> located(data_view(*data), self@.cfg_data_key) is Ok,
            r matches Ok(bytes) ==> located(data_view(*data), self@.cfg_data_key) == Ok::<
                Seq<u8>,
                Error,
            >(bytes@),
            r matches Err(e) ==> e == Error::NotFound,
    {
        locate(data, self.cfg_data_key.as_str())
    }

    /// Decides what to do about the secret of `cfg` in `ns`, given what
    /// reading the secret named after the entry's endpoint gave.
    pub fn ensure_registry_secret(&self, ns: &str, cfg: &Config, read: SecretRead) -> (action:
        SecretAction)
        ensures
            action@ == secret_action(ns@, cfg@, read@),
    {
        if !cfg.selects(ns) {
            return SecretAction::Skip;
        }
        let auth = RegistryAuth::new(
            String::from_str(cfg.username()),
            String::from_str(cfg.password()),
            String::from_str(cfg.server()),
        );
        let blob = auth.base64_encode();
        match read {
            SecretRead::Found(stored) => {
                let up_to_date = match &stored {
                    None => false,
                    Some(text) => same(text.as_str(), blob.as_str()),
                };
                if up_to_date {
                    SecretAction::Keep
                } else {
                    let body = secret_patch(blob.as_str());
                    SecretAction::Patch(
                        SecretWrite {
                            namespace: String::from_str(ns),
                            name: String::from_str(cfg.server()),
                            blob,
                            body,
                        },
                    )
                }
            },
            SecretRead::Failed(failure) => {
                if absent(failure) {
                    let name_lit = quote(cfg.server());
                    let namespace_lit = quote(ns);
                    let body = secret_manifest(
                        name_lit.as_str(),
                        namespace_lit.as_str(),
                        blob.as_str(),
                    );
                    SecretAction::Create(
                        SecretWrite {
                            namespace: String::from_str(ns),
                            name: String::from_str(cfg.server()),
                            blob,
                            body,
                        },
                    )
                } else {
                    SecretAction::Fail(classify(failure))
                }
            },
        }
    }

    /// Decides what to do about the workload identity of `ns` so that it
    /// refers to `secret_name`, given what reading the identity gave.
    pub fn ensure_patch_sa(&self, ns: &str, secret_name: &str, read: IdentityRead) -> (action:
        BindAction)
        ensures
            action@ == bind_action(self@.sa_name, ns@, secret_name@, read@),
    {
        match read {
            IdentityRead::Found(refs) => {
                if holds(&refs, secret_name) {
                    BindAction::Keep
                } else {
                    let ghost before = texts(refs@);
                    let mut new_secrets = refs;
                    new_secrets.push(String::from_str(secret_name));
                    proof {
                        assert(texts(new_secrets@) =~= before.push(secret_name@));
                    }
                    let lits = quote_all(&new_secrets);
                    let body = identity_patch(&lits);
                    BindAction::Patch(
                        IdentityWrite {
                            namespace: String::from_str(ns),
                            name: String::from_str(self.sa_name.as_str()),
                            refs: new_secrets,
                            body,
                        },
                    )
                }
            },
            IdentityRead::Failed(failure) => BindAction::Fail(classify(failure)),
        }
    }
}

} // verus!
