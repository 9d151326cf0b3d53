//! The runner's configuration: where the portal is, which broker to drive,
//! and the broker login fields that never leave this machine.

use vstd::prelude::*;

use crate::text::{same_text, join, to_uppercase, unicode_uppercase};

verus! {

/// Broker login fields, keyed per broker (e.g. "api_key", "api_secret",
/// "email", "password", "server"). No key occurs twice.
pub struct Credentials {
    entries: Vec<(String, String)>,
}

impl Credentials {
    /// No two entries share a key.
    pub closed spec fn distinct_keys(entries: Seq<(String, String)>) -> bool {
        forall|i: int, j: int|
            0 <= i < entries.len() && 0 <= j < entries.len() && i != j
                ==> #[trigger] entries[i].0@ != #[trigger] entries[j].0@
    }

    #[verifier::type_invariant]
    closed spec fn inv(self) -> bool {
        Self::distinct_keys(self.entries@)
    }

    /// Whether some entry of `entries` has the key `k`.
    pub closed spec fn holds_key(entries: Seq<(String, String)>, k: Seq<char>) -> bool {
        exists|i: int| 0 <= i < entries.len() && #[trigger] entries[i].0@ == k
    }

    /// The credentials as a map from field name to value.
    pub closed spec fn as_map(self) -> Map<Seq<char>, Seq<char>> {
        Map::new(
            |k: Seq<char>| Self::holds_key(self.entries@, k),
            |k: Seq<char>|
                self.entries@[choose|i: int| 0 <= i < self.entries@.len() && #[trigger] self.entries@[i].0@ == k].1@,
        )
    }

    /// The fields in the order they were first added.
    pub closed spec fn field_names(self) -> Seq<Seq<char>> {
        self.entries@.map_values(|e: (String, String)| e.0@)
    }

    proof fn lemma_value_at(self, i: int)
        requires
            Self::distinct_keys(self.entries@),
            0 <= i < self.entries@.len(),
        ensures
            self.as_map().contains_key(self.entries@[i].0@),
            self.as_map()[self.entries@[i].0@] == self.entries@[i].1@,
    {
        let k = self.entries@[i].0@;
        assert(Self::holds_key(self.entries@, k));
        let j = choose|j: int| 0 <= j < self.entries@.len() && #[trigger] self.entries@[j].0@ == k;
        assert(self.entries@[j].0@ == k);
        assert(i == j);
    }

    /// A copy of these credentials.
    pub fn duplicate(&self) -> (res: Credentials)
        ensures
            res.as_map() == self.as_map(),
            res.field_names() == self.field_names(),
    {
        proof { use_type_invariant(self); }
        let mut entries: Vec<(String, String)> = Vec::new();
        let mut i: usize = 0;
        while i < self.entries.len()
            invariant
                i <= self.entries@.len(),
                entries@.len() == i,
                forall|k: int| 0 <= k < i ==> #[trigger] entries@[k].0@ == self.entries@[k].0@
                    && entries@[k].1@ == self.entries@[k].1@,
            decreases self.entries@.len() - i,
        {
            let e = &self.entries[i];
            entries.push((e.0.clone(), e.1.clone()));
            i = i + 1;
        }
        let res = Credentials { entries };
        assert(res.field_names() =~= self.field_names());
        assert forall|k: Seq<char>| #[trigger] res.as_map().contains_key(k) == self.as_map().contains_key(k) by {
            if Self::holds_key(self.entries@, k) {
                let j = choose|j: int| 0 <= j < self.entries@.len() && #[trigger] self.entries@[j].0@ == k;
                assert(res.entries@[j].0@ == k);
            }
            if Self::holds_key(res.entries@, k) {
                let j = choose|j: int| 0 <= j < res.entries@.len() && #[trigger] res.entries@[j].0@ == k;
                assert(self.entries@[j].0@ == k);
            }
        }
        assert forall|k: Seq<char>| #[trigger] res.as_map().contains_key(k) implies res.as_map()[k] == self.as_map()[k] by {
            let j = choose|j: int| 0 <= j < res.entries@.len() && #[trigger] res.entries@[j].0@ == k;
            res.lemma_value_at(j);
            self.lemma_value_at(j);
        }
        assert(res.as_map() =~= self.as_map());
        res
    }

    /// No credentials.
    pub fn new() -> (res: Credentials)
        ensures
            res.as_map() == Map::<Seq<char>, Seq<char>>::empty(),
            res.field_names() == Seq::<Seq<char>>::empty(),
    {
        let res = Credentials { entries: Vec::new() };
        assert(res.as_map() =~= Map::<Seq<char>, Seq<char>>::empty());
        assert(res.field_names() =~= Seq::<Seq<char>>::empty());
        res
    }

    /// The value of the field `key`, if it is set.
    pub fn get(&self, key: &str) -> (res: Option<&String>)
        ensures
            match res {
                Some(v) => self.as_map().contains_key(key@) && v@ == self.as_map()[key@],
                None => !self.as_map().contains_key(key@),
            },
    {
        proof { use_type_invariant(self); }
        let mut i: usize = 0;
        while i < self.entries.len()
            invariant
                i <= self.entries@.len(),
                Self::distinct_keys(self.entries@),
                forall|k: int| 0 <= k < i ==> #[trigger] self.entries@[k].0@ != key@,
            decreases self.entries@.len() - i,
        {
            let entry = &self.entries[i];
            if same_text(entry.0.as_str(), key) {
                proof { self.lemma_value_at(i as int); }
                return Some(&entry.1);
            }
            i = i + 1;
        }
        None
    }

    /// Sets the field `key` to `value`, replacing any earlier value.
    pub fn insert(&mut self, key: String, value: String)
        ensures
            final(self).as_map() == old(self).as_map().insert(key@, value@),
            old(self).as_map().contains_key(key@) ==> final(self).field_names() == old(self).field_names(),
            !old(self).as_map().contains_key(key@) ==> final(self).field_names() == old(self).field_names().push(key@),
    {
        proof { use_type_invariant(&*self); }
        let mut i: usize = 0;
        let n = self.entries.len();
        while i < n
            invariant
                n == self.entries@.len(),
                *self == *old(self),
                i <= n,
                Self::distinct_keys(self.entries@),
                forall|k: int| 0 <= k < i ==> #[trigger] self.entries@[k].0@ != key@,
            decreases n - i,
        {
            if same_text(self.entries[i].0.as_str(), key.as_str()) {
                let ghost before = *self;
                proof { before.lemma_value_at(i as int); }
                let mut entries: Vec<(String, String)> = Vec::new();
        std::mem::swap(&mut entries, &mut self.entries);
                entries.set(i, (key, value));
                let ghost after = Credentials { entries };
                assert(Self::distinct_keys(entries@)) by {
                    assert forall|a: int, b: int|
                        0 <= a < entries@.len() && 0 <= b < entries@.len() && a != b
                            implies #[trigger] entries@[a].0@ != #[trigger] entries@[b].0@ by {
                        if a != i && b != i {
                            assert(before.entries@[a].0@ != before.entries@[b].0@);
                        }
                    }
                }
                proof {
                    assert forall|k: Seq<char>| #[trigger] after.as_map().contains_key(k)
                        == before.as_map().insert(key@, value@).contains_key(k) by {
                        if k != key@ && Self::holds_key(before.entries@, k) {
                            let j = choose|j: int| 0 <= j < before.entries@.len() && #[trigger] before.entries@[j].0@ == k;
                            assert(entries@[j].0@ == k);
                        }
                        if Self::holds_key(after.entries@, k) {
                            let j = choose|j: int| 0 <= j < entries@.len() && #[trigger] entries@[j].0@ == k;
                            if j != i {
                                assert(before.entries@[j].0@ == k);
                            }
                        }
                        assert(entries@[i as int].0@ == key@);
                    }
                    assert forall|k: Seq<char>| #[trigger] after.as_map().contains_key(k) implies
                        after.as_map()[k] == before.as_map().insert(key@, value@)[k] by {
                        let j = choose|j: int| 0 <= j < entries@.len() && #[trigger] entries@[j].0@ == k;
                        after.lemma_value_at(j);
                        if j != i {
                            assert(before.entries@[j].0@ == k);
                            before.lemma_value_at(j);
                        }
                    }
                    assert(after.as_map() =~= before.as_map().insert(key@, value@));
                    assert(after.field_names() =~= before.field_names());
                }
                self.entries = entries;
                return;
            }
            i = i + 1;
        }
        let ghost before = *self;
        let mut entries: Vec<(String, String)> = Vec::new();
        std::mem::swap(&mut entries, &mut self.entries);
        entries.push((key, value));
        let ghost after = Credentials { entries };
        assert(Self::distinct_keys(entries@)) by {
            assert forall|a: int, b: int|
                0 <= a < entries@.len() && 0 <= b < entries@.len() && a != b
                    implies #[trigger] entries@[a].0@ != #[trigger] entries@[b].0@ by {
                if a < n && b < n {
                    assert(before.entries@[a].0@ != before.entries@[b].0@);
                } else if a < n {
                    assert(before.entries@[a].0@ != key@);
                } else {
                    assert(before.entries@[b].0@ != key@);
                }
            }
        }
        proof {
            assert(!Self::holds_key(before.entries@, key@));
            assert forall|k: Seq<char>| #[trigger] after.as_map().contains_key(k)
                == before.as_map().insert(key@, value@).contains_key(k) by {
                if Self::holds_key(before.entries@, k) {
                    let j = choose|j: int| 0 <= j < before.entries@.len() && #[trigger] before.entries@[j].0@ == k;
                    assert(entries@[j].0@ == k);
                }
                if Self::holds_key(after.entries@, k) {
                    let j = choose|j: int| 0 <= j < entries@.len() && #[trigger] entries@[j].0@ == k;
                    if j < n {
                        assert(before.entries@[j].0@ == k);
                    }
                }
                assert(entries@[n as int].0@ == key@);
            }
            assert forall|k: Seq<char>| #[trigger] after.as_map().contains_key(k) implies
                after.as_map()[k] == before.as_map().insert(key@, value@)[k] by {
                let j = choose|j: int| 0 <= j < entries@.len() && #[trigger] entries@[j].0@ == k;
                after.lemma_value_at(j);
                if j < n {
                    assert(before.entries@[j].0@ == k);
                    before.lemma_value_at(j);
                }
            }
            assert(after.as_map() =~= before.as_map().insert(key@, value@));
            assert(after.field_names() =~= before.field_names().push(key@));
        }
        self.entries = entries;
    }

    /// The (field, value) pairs, in the order the fields were first added.
    pub fn entries(&self) -> (res: &Vec<(String, String)>)
        ensures
            res@.map_values(|e: (String, String)| e.0@) == self.field_names(),
            forall|i: int| 0 <= i < res@.len() ==> self.as_map().contains_key(#[trigger] res@[i].0@)
                && self.as_map()[res@[i].0@] == res@[i].1@,
            forall|k: Seq<char>| #[trigger] self.as_map().contains_key(k) ==>
                exists|i: int| 0 <= i < res@.len() && #[trigger] res@[i].0@ == k,
    {
        proof {
            use_type_invariant(self);
            assert forall|i: int| 0 <= i < self.entries@.len() implies self.as_map().contains_key(#[trigger] self.entries@[i].0@)
                && self.as_map()[self.entries@[i].0@] == self.entries@[i].1@ by {
                self.lemma_value_at(i);
            }
        }
        &self.entries
    }
}


/// Everything here lives only on whatever machine runs the runner. Nothing in
/// it is ever sent to the portal except `portal_base_url`/`runner_token`,
/// which authenticate the polling loop, and never the broker credentials.
pub struct RunnerConfig {
    pub portal_base_url: String,
    pub runner_token: Option<String>,
    pub venue: Option<String>,
    pub is_paper: bool,
    /// Never transmitted anywhere except directly to the broker's own API.
    pub credentials: Credentials,
}

impl Default for RunnerConfig {
    fn default() -> (res: RunnerConfig)
        ensures
            res.portal_base_url@ == Seq::<char>::empty(),
            res.runner_token is None,
            res.venue is None,
            !res.is_paper,
            res.credentials.as_map() == Map::<Seq<char>, Seq<char>>::empty(),
    {
        RunnerConfig {
            portal_base_url: String::new(),
            runner_token: None,
            venue: None,
            is_paper: false,
            credentials: Credentials::new(),
        }
    }
}

/// The portal used when none is configured.
pub open spec fn default_portal_base_url() -> Seq<char> {
    "https://ellipsys-app.vercel.app"@
}

/// The credential field names that the supported brokers use, in the order
/// the headless runner looks them up.
pub open spec fn credential_key_names() -> Seq<Seq<char>> {
    seq![
        "api_key"@, "api_secret"@, "client_id"@, "host"@, "port"@,
        "private_key"@, "email"@, "password"@, "server"@,
    ]
}

/// The credential field names that the supported brokers use.
pub fn credential_keys() -> (keys: Vec<String>)
    ensures
        keys@.map_values(|k: String| k@) == credential_key_names(),
{
    let keys = vec![
        "api_key".to_owned(), "api_secret".to_owned(), "client_id".to_owned(),
        "host".to_owned(), "port".to_owned(), "private_key".to_owned(),
        "email".to_owned(), "password".to_owned(), "server".to_owned(),
    ];
    assert(keys@.map_values(|k: String| k@) =~= credential_key_names());
    keys
}

/// The environment variable that carries the credential field `key`:
/// `ELLIPSYS_CRED_` followed by the upper-cased field name.
pub fn credential_env_name(key: &str) -> (name: String)
    ensures
        name@ == "ELLIPSYS_CRED_"@ + unicode_uppercase(key@),
{
    let upper = to_uppercase(key);
    join("ELLIPSYS_CRED_", upper.as_str())
}

/// A setting counts only when it is present and not empty.
pub open spec fn present_value(value: Option<String>) -> Option<String> {
    match value {
        Some(v) => if v@.len() > 0 { Some(v) } else { None },
        None => None,
    }
}

/// Keeps a setting only when it is present and not empty.
pub fn present(value: Option<String>) -> (res: Option<String>)
    ensures
        res == present_value(value),
{
    match value {
        Some(v) => if v.as_str().is_empty() { None } else { Some(v) },
        None => None,
    }
}

/// Paper trading unless the setting says otherwise: an absent (or empty)
/// setting means paper; a present one means paper exactly when it is
/// `true` or `1`.
pub open spec fn paper_flag_of(value: Option<String>) -> bool {
    match present_value(value) {
        Some(v) => v@ == "true"@ || v@ == "1"@,
        None => true,
    }
}

/// Interprets the `IS_PAPER` setting.
pub fn paper_flag(value: Option<String>) -> (res: bool)
    ensures
        res == paper_flag_of(value),
{
    match present(value) {
        Some(v) => same_text(v.as_str(), "true") || same_text(v.as_str(), "1"),
        None => true,
    }
}

/// The credentials gathered from the values found for each field: a field
/// counts only when its value is present and not empty; a later value for
/// the same field replaces an earlier one.
pub open spec fn gathered_credentials(found: Seq<(String, Option<String>)>) -> Map<Seq<char>, Seq<char>>
    decreases found.len(),
{
    if found.len() == 0 {
        Map::empty()
    } else {
        let before = gathered_credentials(found.drop_last());
        match present_value(found.last().1) {
            Some(v) => before.insert(found.last().0@, v@),
            None => before,
        }
    }
}

/// Gathering keeps every field that was found with a value: for each
/// field whose value is present and not empty, and that no later entry
/// names again, the credentials map the field to that value. And every
/// field in the credentials was found with a value.
pub proof fn lemma_gathered_credentials(found: Seq<(String, Option<String>)>)
    ensures
        forall|i: int| #![trigger found[i]] 0 <= i < found.len()
            && present_value(found[i].1) is Some
            && (forall|j: int| #![trigger found[j]] i < j < found.len() ==> found[j].0@ != found[i].0@)
            ==> gathered_credentials(found).contains_key(found[i].0@)
                && gathered_credentials(found)[found[i].0@] == present_value(found[i].1)->0@,
        forall|k: Seq<char>| #[trigger] gathered_credentials(found).contains_key(k) ==>
            exists|i: int| #![trigger found[i]] 0 <= i < found.len() && found[i].0@ == k
                && present_value(found[i].1) is Some,
    decreases found.len(),
{
    if found.len() > 0 {
        let init = found.drop_last();
        let n = found.len() - 1;
        lemma_gathered_credentials(init);
        assert forall|i: int| #![trigger found[i]] 0 <= i < found.len()
            && present_value(found[i].1) is Some
            && (forall|j: int| #![trigger found[j]] i < j < found.len() ==> found[j].0@ != found[i].0@)
            implies gathered_credentials(found).contains_key(found[i].0@)
                && gathered_credentials(found)[found[i].0@] == present_value(found[i].1)->0@ by {
            if i < n {
                assert(init[i] == found[i]);
                assert forall|j: int| #![trigger init[j]] i < j < init.len() implies init[j].0@ != init[i].0@ by {
                    assert(init[j] == found[j]);
                }
                assert(found[n].0@ != found[i].0@);
            }
        }
        assert forall|k: Seq<char>| #[trigger] gathered_credentials(found).contains_key(k) implies
            exists|i: int| #![trigger found[i]] 0 <= i < found.len() && found[i].0@ == k
                && present_value(found[i].1) is Some by {
            if present_value(found[n].1) is Some && found[n].0@ == k {
                assert(found[n].0@ == k);
            } else {
                assert(gathered_credentials(init).contains_key(k));
                let i = choose|i: int| #![trigger init[i]] 0 <= i < init.len() && init[i].0@ == k
                    && present_value(init[i].1) is Some;
                assert(init[i] == found[i]);
            }
        }
    }
}

/// The credential fields the runner reads from its environment cover every
/// field an adapter reads: Alpaca's `api_key` and `api_secret`, Kraken's
/// `api_key` and `private_key`, TradeLocker's `email`, `password` and
/// `server`, and the `host`, `port` and `client_id` that the IBKR adapter
/// passes on to its gateway with the rest of the credentials; and no field
/// is read twice.
pub proof fn lemma_credential_keys_cover_adapters()
    ensures
        credential_key_names().contains("api_key"@),
        credential_key_names().contains("api_secret"@),
        credential_key_names().contains("private_key"@),
        credential_key_names().contains("email"@),
        credential_key_names().contains("password"@),
        credential_key_names().contains("server"@),
        credential_key_names().contains("host"@),
        credential_key_names().contains("port"@),
        credential_key_names().contains("client_id"@),
        credential_key_names().no_duplicates(),
{
    let names = credential_key_names();
    assert(names[0] == "api_key"@);
    assert(names[1] == "api_secret"@);
    assert(names[2] == "client_id"@);
    assert(names[3] == "host"@);
    assert(names[4] == "port"@);
    assert(names[5] == "private_key"@);
    assert(names[6] == "email"@);
    assert(names[7] == "password"@);
    assert(names[8] == "server"@);
    reveal_strlit("api_key");
    reveal_strlit("api_secret");
    reveal_strlit("client_id");
    reveal_strlit("host");
    reveal_strlit("port");
    reveal_strlit("private_key");
    reveal_strlit("email");
    reveal_strlit("password");
    reveal_strlit("server");
    assert forall|i: int, j: int| 0 <= i < names.len() && 0 <= j < names.len() && i != j implies names[i] != names[j] by {
        assert(names[i].len() != names[j].len() || names[i][0] != names[j][0] || names[i][1] != names[j][1]);
    }
}

impl RunnerConfig {
    /// Builds the headless runner's configuration from the settings found in
    /// its environment: the portal defaults to the hosted one, paper trading
    /// is on unless `IS_PAPER` says otherwise, and only credential fields
    /// with a value are kept.
    pub fn from_settings(
        portal_base_url: Option<String>,
        runner_token: Option<String>,
        venue: Option<String>,
        is_paper: Option<String>,
        found_credentials: Vec<(String, Option<String>)>,
    ) -> (res: RunnerConfig)
        ensures
            res.portal_base_url@ == match present_value(portal_base_url) {
                Some(v) => v@,
                None => default_portal_base_url(),
            },
            res.runner_token == present_value(runner_token),
            res.venue == present_value(venue),
            res.is_paper == paper_flag_of(is_paper),
            res.credentials.as_map() == gathered_credentials(found_credentials@),
    {
        let mut credentials = Credentials::new();
        let mut i: usize = 0;
        let n = found_credentials.len();
        while i < n
            invariant
                n == found_credentials@.len(),
                i <= n,
                credentials.as_map() == gathered_credentials(found_credentials@.subrange(0, i as int)),
            decreases n - i,
        {
            let entry = &found_credentials[i];
            assert(found_credentials@.subrange(0, i + 1).drop_last() =~= found_credentials@.subrange(0, i as int));
            match &entry.1 {
                Some(v) => {
                    if !v.as_str().is_empty() {
                        credentials.insert(entry.0.clone(), v.clone());
                    }
                },
                None => {},
            }
            i = i + 1;
        }
        assert(found_credentials@.subrange(0, n as int) =~= found_credentials@);
        let portal = match present(portal_base_url) {
            Some(v) => v,
            None => "https://ellipsys-app.vercel.app".to_owned(),
        };
        RunnerConfig {
            portal_base_url: portal,
            runner_token: present(runner_token),
            venue: present(venue),
            is_paper: paper_flag(is_paper),
            credentials,
        }
    }
}

} // verus!
