//! Push orchestrator: decides, step by step, how every secret of a
//! configuration is handed to every listed repository. The orchestrator
//! holds the run's state and says what outward action comes next; performing
//! the network calls and reporting their outcome is the caller's part.

use vstd::prelude::*;
use vstd::utf8::encode_utf8;
use crate::config::Config;
use crate::encoding::b64_of;
use crate::github::encrypt_github_secret;
use crate::github::GithubError;
use crate::github::RepoPublicKey;
use crate::github::SecretBody;
use crate::sealing::SEAL_OVERHEAD;

verus! {

/// The next outward step of a push run.
pub enum PushStep {
    /// Fetch the public key of this repository of the organization.
    FetchKey { org: String, repo: String },
    /// Upsert this sealed secret under this name in this repository.
    PushSecret { org: String, repo: String, name: String, body: SecretBody },
    /// Every repository has been handled.
    Done,
    /// A step failed earlier; the run is aborted.
    Aborted,
}

/// One push run over a configuration. Repositories are handled in listed
/// order; for each, every secret is sealed in listed order against that
/// repository's own key — a sealed value is never reused for another
/// repository — and the first reported failure aborts the whole run.
pub struct PushSession {
    org: String,
    repositories: Vec<String>,
    env: Vec<(String, String)>,
    repo_idx: usize,
    env_idx: usize,
    key: Option<RepoPublicKey>,
    failed: bool,
}

impl PushSession {
    /// The organization of the run.
    pub closed spec fn spec_org(&self) -> Seq<char> {
        self.org@
    }

    /// The repositories of the run, in listed order.
    pub closed spec fn spec_repos(&self) -> Seq<Seq<char>> {
        self.repositories@.map_values(|s: String| s@)
    }

    /// The secrets of the run, in listed order.
    pub closed spec fn spec_env(&self) -> Seq<(Seq<char>, Seq<char>)> {
        self.env@.map_values(|p: (String, String)| (p.0@, p.1@))
    }

    /// Which repository the run stands at.
    pub closed spec fn spec_repo_idx(&self) -> int {
        self.repo_idx as int
    }

    /// Which secret of the current repository the run stands at.
    pub closed spec fn spec_env_idx(&self) -> int {
        self.env_idx as int
    }

    /// Whether the current repository's key has been fetched.
    pub closed spec fn spec_has_key(&self) -> bool {
        self.key is Some
    }

    /// The fetched key: its base64 key material and its identifier.
    pub closed spec fn spec_key(&self) -> (Seq<char>, Seq<char>) {
        (self.key->0.key@, self.key->0.key_id@)
    }

    /// Whether a failure has been reported.
    pub closed spec fn spec_failed(&self) -> bool {
        self.failed
    }

    /// The session invariant: the position is inside the run, and a key is
    /// held only while a repository with a pending secret is current.
    pub closed spec fn wf(&self) -> bool {
        &&& self.repo_idx <= self.repositories@.len()
        &&& self.key is Some ==> self.repo_idx < self.repositories@.len()
            && self.env_idx < self.env@.len()
        &&& self.key is None ==> self.env_idx == 0
    }

    /// Starts a push run over a configuration: at the first repository, no
    /// key fetched, nothing failed.
    pub fn new(config: Config) -> (s: Self)
        ensures
            s.wf(),
            s.spec_org() == config@.org,
            s.spec_repos() == config@.repositories,
            s.spec_env() == config@.env,
            s.spec_repo_idx() == 0,
            s.spec_env_idx() == 0,
            !s.spec_has_key(),
            !s.spec_failed(),
    {
        PushSession {
            org: config.org,
            repositories: config.repositories,
            env: config.env,
            repo_idx: 0,
            env_idx: 0,
            key: None,
            failed: false,
        }
    }

    /// Decides the next outward step: `Aborted` forever once a failure was
    /// reported; `Done` when every repository is handled; a key fetch for
    /// the current repository while its key is missing; otherwise the
    /// current secret, sealed against the current repository's key, to be
    /// upserted under its own name. Sealing is the only step that can fail
    /// here, and only with the sealer's own errors.
    pub fn next_step(&self) -> (r: Result<PushStep, GithubError>)
        requires
            self.wf(),
        ensures
            self.spec_failed() ==> r is Ok && r->Ok_0 is Aborted,
            !self.spec_failed() && self.spec_repo_idx() == self.spec_repos().len()
                ==> r is Ok && r->Ok_0 is Done,
            !self.spec_failed() && self.spec_repo_idx() < self.spec_repos().len()
                && !self.spec_has_key()
                ==> r is Ok
                    && (r->Ok_0 matches PushStep::FetchKey { org, repo }
                        && org@ == self.spec_org()
                        && repo@ == self.spec_repos()[self.spec_repo_idx()]),
            r is Ok && r->Ok_0 is PushSecret ==> !self.spec_failed() && self.spec_has_key(),
            !self.spec_failed() && self.spec_repo_idx() < self.spec_repos().len()
                && self.spec_has_key()
                ==> (r matches Ok(s) ==> s is PushSecret),
            r is Ok ==> (r->Ok_0 matches PushStep::PushSecret { org, repo, name, body } ==> ({
                &&& org@ == self.spec_org()
                &&& repo@ == self.spec_repos()[self.spec_repo_idx()]
                &&& name@ == self.spec_env()[self.spec_env_idx()].0
                &&& body.key_id@ == self.spec_key().1
                &&& exists |sealed: Seq<u8>| body.encrypted_value@ == #[trigger] b64_of(sealed)
                    && sealed.len()
                        == encode_utf8(self.spec_env()[self.spec_env_idx()].1).len()
                            + SEAL_OVERHEAD
            })),
            r is Err ==> !self.spec_failed() && self.spec_has_key()
                && (r->Err_0 is Base64Error || r->Err_0 is InvalidPublicKeyLength
                    || r->Err_0 is SodiumInitError),
    {
        if self.failed {
            return Ok(PushStep::Aborted);
        }
        if self.repo_idx >= self.repositories.len() {
            return Ok(PushStep::Done);
        }
        match &self.key {
            None => Ok(PushStep::FetchKey {
                org: self.org.clone(),
                repo: self.repositories[self.repo_idx].clone(),
            }),
            Some(k) => {
                let entry = &self.env[self.env_idx];
                proof {
                    assert(self.spec_env()[self.spec_env_idx()]
                        == (self.env@[self.env_idx as int].0@, self.env@[self.env_idx as int].1@));
                    assert(self.spec_repos()[self.spec_repo_idx()]
                        == self.repositories@[self.repo_idx as int]@);
                    assert(self.spec_key() == (k.key@, k.key_id@));
                }
                match encrypt_github_secret(k.key.as_str(), entry.1.as_str()) {
                    Ok(sealed) => Ok(PushStep::PushSecret {
                        org: self.org.clone(),
                        repo: self.repositories[self.repo_idx].clone(),
                        name: entry.0.clone(),
                        body: SecretBody { encrypted_value: sealed, key_id: k.key_id.clone() },
                    }),
                    Err(e) => Err(e),
                }
            },
        }
    }

    /// Records the current repository's fetched key. When the run holds no
    /// secrets at all, the repository is finished instead and the run moves
    /// on. Called in any other state, the session is left unchanged.
    pub fn key_fetched(&mut self, key: RepoPublicKey)
        requires
            old(self).wf(),
        ensures
            final(self).wf(),
            final(self).spec_org() == old(self).spec_org(),
            final(self).spec_repos() == old(self).spec_repos(),
            final(self).spec_env() == old(self).spec_env(),
            final(self).spec_failed() == old(self).spec_failed(),
            old(self).spec_failed() || old(self).spec_has_key()
                || old(self).spec_repo_idx() == old(self).spec_repos().len()
                ==> *final(self) == *old(self),
            !old(self).spec_failed() && !old(self).spec_has_key()
                && old(self).spec_repo_idx() < old(self).spec_repos().len()
                && old(self).spec_env().len() > 0
                ==> final(self).spec_has_key()
                    && final(self).spec_key() == (key.key@, key.key_id@)
                    && final(self).spec_repo_idx() == old(self).spec_repo_idx()
                    && final(self).spec_env_idx() == 0,
            !old(self).spec_failed() && !old(self).spec_has_key()
                && old(self).spec_repo_idx() < old(self).spec_repos().len()
                && old(self).spec_env().len() == 0
                ==> !final(self).spec_has_key()
                    && final(self).spec_repo_idx() == old(self).spec_repo_idx() + 1,
    {
        if self.failed || self.key.is_some() || self.repo_idx >= self.repositories.len() {
            return;
        }
        if self.env.len() == 0 {
            self.repo_idx = self.repo_idx + 1;
            return;
        }
        self.key = Some(key);
    }

    /// Records that the current secret was upserted: the run moves to the
    /// next secret, or, when the repository's secrets are exhausted, to the
    /// next repository, dropping its key. Called while no key is held, the
    /// session is left unchanged.
    pub fn pushed(&mut self)
        requires
            old(self).wf(),
        ensures
            final(self).wf(),
            final(self).spec_org() == old(self).spec_org(),
            final(self).spec_repos() == old(self).spec_repos(),
            final(self).spec_env() == old(self).spec_env(),
            final(self).spec_failed() == old(self).spec_failed(),
            !old(self).spec_has_key() ==> *final(self) == *old(self),
            old(self).spec_has_key() && old(self).spec_env_idx() + 1 < old(self).spec_env().len()
                ==> final(self).spec_has_key()
                    && final(self).spec_key() == old(self).spec_key()
                    && final(self).spec_repo_idx() == old(self).spec_repo_idx()
                    && final(self).spec_env_idx() == old(self).spec_env_idx() + 1,
            old(self).spec_has_key() && old(self).spec_env_idx() + 1 == old(self).spec_env().len()
                ==> !final(self).spec_has_key()
                    && final(self).spec_repo_idx() == old(self).spec_repo_idx() + 1
                    && final(self).spec_env_idx() == 0,
    {
        if self.key.is_none() {
            return;
        }
        let n: usize = self.env.len();
        let m: usize = self.repositories.len();
        if self.env_idx < n - 1 {
            self.env_idx = self.env_idx + 1;
        } else {
            self.env_idx = 0;
            self.repo_idx = if self.repo_idx < m {
                self.repo_idx + 1
            } else {
                m
            };
            self.key = None;
        }
    }

    /// Records that a step failed: from here on, the run is aborted — every
    /// later `next_step` decides `Aborted`.
    pub fn fail(&mut self)
        requires
            old(self).wf(),
        ensures
            final(self).wf(),
            final(self).spec_failed(),
            final(self).spec_org() == old(self).spec_org(),
            final(self).spec_repos() == old(self).spec_repos(),
            final(self).spec_env() == old(self).spec_env(),
    {
        self.failed = true;
    }
}

} // verus!
