//! The list of configured accounts. Passwords live in the system keyring;
//! what is written to the configuration file carries none.

use vstd::prelude::*;
use crate::text::{
    before_char, before_char_exec, chars_of, contains, has_substring, occurs_at, occurs_at_exec,
    push_chars, push_str_chars, replace_char, replace_char_exec, starts_with, str_eq, string_of,
};

verus! {

/// An account as stored in the configuration file (no password).
#[derive(Clone, Debug)]
pub struct AccountMeta {
    pub id: String,
    pub display_name: String,
    pub url: String,
    pub username: String,
}

/// An account in memory, with its password from the keyring.
#[derive(Clone, Debug)]
pub struct Account {
    pub id: String,
    pub display_name: String,
    pub url: String,
    pub username: String,
    pub password: String,
}

/// The configured accounts, in the order they were added.
#[derive(Clone, Debug)]
pub struct Config {
    pub accounts: Vec<Account>,
}

/// What an account is, as text.
pub struct AccountView {
    pub id: Seq<char>,
    pub display_name: Seq<char>,
    pub url: Seq<char>,
    pub username: Seq<char>,
    pub password: Seq<char>,
}

/// What a stored account is, as text.
pub struct MetaView {
    pub id: Seq<char>,
    pub display_name: Seq<char>,
    pub url: Seq<char>,
    pub username: Seq<char>,
}

impl View for Account {
    type V = AccountView;

    open spec fn view(&self) -> AccountView {
        AccountView {
            id: self.id@,
            display_name: self.display_name@,
            url: self.url@,
            username: self.username@,
            password: self.password@,
        }
    }
}

impl View for AccountMeta {
    type V = MetaView;

    open spec fn view(&self) -> MetaView {
        MetaView {
            id: self.id@,
            display_name: self.display_name@,
            url: self.url@,
            username: self.username@,
        }
    }
}

impl View for Config {
    type V = Seq<AccountView>;

    open spec fn view(&self) -> Seq<AccountView> {
        self.accounts@.map_values(|a: Account| a@)
    }
}

/// The views of a list of stored accounts.
pub open spec fn meta_views(v: Seq<AccountMeta>) -> Seq<MetaView> {
    v.map_values(|m: AccountMeta| m@)
}

/// `s` with every occurrence of `p` (taken from the left, not overlapping)
/// replaced by `r`, as `str::replace` does; `p` must not be empty.
pub open spec fn replace_all(s: Seq<char>, p: Seq<char>, r: Seq<char>) -> Seq<char>
    decreases s.len(),
{
    if s.len() == 0 || p.len() == 0 {
        s
    } else if starts_with(s, p) {
        r + replace_all(s.skip(p.len() as int), p, r)
    } else {
        seq![s[0]] + replace_all(s.skip(1), p, r)
    }
}

/// The identifier of an account: the user name, a dash, and the URL with
/// `://` and every `/` turned into `_`.
pub open spec fn account_id(url: Seq<char>, username: Seq<char>) -> Seq<char> {
    username + "-"@ + replace_char(replace_all(url, "://"@, "_"@), '/', "_"@)
}

/// The provider a URL belongs to, as shown after the account name.
pub open spec fn provider_label(url: Seq<char>) -> Seq<char> {
    if contains(url, "google.com"@) {
        " (Google)"@
    } else if contains(url, "outlook.office365.com"@) {
        " (Outlook)"@
    } else if contains(url, "nextcloud"@) || contains(url, "remote.php"@) {
        " (Nextcloud)"@
    } else {
        " (CalDAV)"@
    }
}

/// The name an account is shown under: the user name up to its first `@`,
/// followed by the provider label.
pub open spec fn account_display_name(url: Seq<char>, username: Seq<char>) -> Seq<char> {
    before_char(username, '@') + provider_label(url)
}

/// The accounts of `s` whose identifier is not `id`, in order.
pub open spec fn without_id(s: Seq<AccountView>, id: Seq<char>) -> Seq<AccountView>
    decreases s.len(),
{
    if s.len() == 0 {
        s
    } else {
        let rest = without_id(s.drop_last(), id);
        if s.last().id == id { rest } else { rest.push(s.last()) }
    }
}

/// The position of the first account of `s` with identifier `id`.
pub open spec fn first_with_id(s: Seq<AccountView>, id: Seq<char>) -> Option<int> {
    if exists|i: int| 0 <= i < s.len() && s[i].id == id {
        Some(choose|i: int| 0 <= i < s.len() && s[i].id == id && forall|j: int| 0 <= j < i ==> s[j].id != id)
    } else {
        None
    }
}

/// The stored form of an account: everything but the password.
pub open spec fn meta_of(a: AccountView) -> MetaView {
    MetaView { id: a.id, display_name: a.display_name, url: a.url, username: a.username }
}

/// The accounts of stored entries whose password the keyring returned, in
/// order; the others are left out.
pub open spec fn accounts_from_stored(metas: Seq<MetaView>, passwords: Seq<Option<Seq<char>>>) -> Seq<AccountView>
    decreases metas.len(),
{
    if metas.len() == 0 || passwords.len() != metas.len() {
        Seq::empty()
    } else {
        let rest = accounts_from_stored(metas.drop_last(), passwords.drop_last());
        match passwords.last() {
            Some(p) => rest.push(
                AccountView {
                    id: metas.last().id,
                    display_name: metas.last().display_name,
                    url: metas.last().url,
                    username: metas.last().username,
                    password: p,
                },
            ),
            None => rest,
        }
    }
}

/// `zeroize::Zeroize` for `String`: overwrites the bytes with zeros and
/// leaves the string empty.
#[verifier::external_body]
pub fn zeroize_string(s: &mut String)
    ensures
        final(s)@ == Seq::<char>::empty(),
{
    zeroize::Zeroize::zeroize(s);
}

/// `s` with every `p` replaced by `r`.
fn replace_all_exec(s: &[char], p: &str, r: &str) -> (out: Vec<char>)
    requires
        p@.len() > 0,
    ensures
        out@ == replace_all(s@, p@, r@),
{
    let pv = chars_of(p);
    let rv = chars_of(r);
    let mut out: Vec<char> = Vec::new();
    let mut i: usize = 0;
    assert(s@.skip(0) =~= s@);
    while i < s.len()
        invariant
            i <= s@.len(),
            pv@ == p@,
            rv@ == r@,
            p@.len() > 0,
            replace_all(s@, p@, r@) == out@ + replace_all(s@.skip(i as int), p@, r@),
        decreases s@.len() - i,
    {
        let ghost rest = s@.skip(i as int);
        if occurs_at_exec(s, pv.as_slice(), i) {
            proof {
                assert(rest.take(p@.len() as int) =~= s@.subrange(i as int, i + p@.len()));
                assert(rest.skip(p@.len() as int) =~= s@.skip(i + p@.len()));
            }
            push_chars(&mut out, rv.as_slice());
            i = i + pv.len();
        } else {
            proof {
                if p@.len() <= rest.len() {
                    assert(rest.take(p@.len() as int) =~= s@.subrange(i as int, i + p@.len()));
                }
                assert(rest.skip(1) =~= s@.skip(i + 1));
            }
            out.push(s[i]);
            i += 1;
        }
        assert(replace_all(s@, p@, r@) =~= out@ + replace_all(s@.skip(i as int), p@, r@));
    }
    assert(replace_all(s@.skip(i as int), p@, r@) =~= Seq::<char>::empty());
    assert(out@ =~= replace_all(s@, p@, r@));
    out
}

/// The identifier for an account at `url` with user name `username`.
pub fn account_id_for(url: &str, username: &str) -> (r: String)
    ensures
        r@ == account_id(url@, username@),
{
    proof {
        reveal_strlit("://");
    }
    let uv = chars_of(url);
    let a = replace_all_exec(uv.as_slice(), "://", "_");
    let b = replace_char_exec(a.as_slice(), '/', "_");
    let mut out: Vec<char> = Vec::new();
    push_str_chars(&mut out, username);
    push_str_chars(&mut out, "-");
    push_chars(&mut out, b.as_slice());
    string_of(out.as_slice())
}

/// The name an account at `url` with user name `username` is shown under.
pub fn display_name_for(url: &str, username: &str) -> (r: String)
    ensures
        r@ == account_display_name(url@, username@),
{
    let uv = chars_of(username);
    let short = before_char_exec(uv.as_slice(), '@');
    let url_v = chars_of(url);
    let label = if has_substring(url_v.as_slice(), "google.com") {
        " (Google)"
    } else if has_substring(url_v.as_slice(), "outlook.office365.com") {
        " (Outlook)"
    } else if has_substring(url_v.as_slice(), "nextcloud") || has_substring(
        url_v.as_slice(),
        "remote.php",
    ) {
        " (Nextcloud)"
    } else {
        " (CalDAV)"
    };
    let mut out = short;
    push_str_chars(&mut out, label);
    string_of(out.as_slice())
}

impl Config {
    /// No accounts.
    pub fn new() -> (r: Self)
        ensures
            r@ == Seq::<AccountView>::empty(),
    {
        let r = Config { accounts: Vec::new() };
        assert(r@ =~= Seq::<AccountView>::empty());
        r
    }

    /// The configuration read back from stored entries and the passwords the
    /// keyring returned for them (`None` where it returned none); an entry
    /// without a password is skipped.
    pub fn from_stored(metas: Vec<AccountMeta>, passwords: Vec<Option<String>>) -> (r: Self)
        requires
            metas@.len() == passwords@.len(),
        ensures
            r@ == accounts_from_stored(
                meta_views(metas@),
                passwords@.map_values(|p: Option<String>| p.deep_view()),
            ),
    {
        let ghost mv = meta_views(metas@);
        let ghost pv = passwords@.map_values(|p: Option<String>| p.deep_view());
        let mut accounts: Vec<Account> = Vec::new();
        let mut i: usize = 0;
        proof {
            assert(mv.take(0) =~= Seq::<MetaView>::empty());
            assert(accounts@.map_values(|a: Account| a@) =~= Seq::<AccountView>::empty());
        }
        while i < metas.len()
            invariant
                i <= metas@.len(),
                metas@.len() == passwords@.len(),
                mv == meta_views(metas@),
                pv == passwords@.map_values(|p: Option<String>| p.deep_view()),
                accounts@.map_values(|a: Account| a@) == accounts_from_stored(
                    mv.take(i as int),
                    pv.take(i as int),
                ),
            decreases metas@.len() - i,
        {
            proof {
                assert(mv.take(i + 1).drop_last() =~= mv.take(i as int));
                assert(pv.take(i + 1).drop_last() =~= pv.take(i as int));
            }
            match &passwords[i] {
                Some(p) => {
                    let m = &metas[i];
                    accounts.push(
                        Account {
                            id: m.id.clone(),
                            display_name: m.display_name.clone(),
                            url: m.url.clone(),
                            username: m.username.clone(),
                            password: p.clone(),
                        },
                    );
                },
                None => {},
            }
            i += 1;
            proof {
                assert(accounts@.map_values(|a: Account| a@) =~= accounts_from_stored(
                    mv.take(i as int),
                    pv.take(i as int),
                ));
            }
        }
        proof {
            assert(mv.take(i as int) =~= mv);
            assert(pv.take(i as int) =~= pv);
        }
        Config { accounts }
    }

    /// The entries written to the configuration file: every account without
    /// its password, in order.
    pub fn stored_accounts(&self) -> (r: Vec<AccountMeta>)
        ensures
            meta_views(r@) == self@.map_values(|a: AccountView| meta_of(a)),
    {
        let mut out: Vec<AccountMeta> = Vec::new();
        let mut i: usize = 0;
        while i < self.accounts.len()
            invariant
                i <= self.accounts@.len(),
                out@.len() == i,
                forall|j: int| 0 <= j < i ==> #[trigger] out@[j]@ == meta_of(self.accounts@[j]@),
            decreases self.accounts@.len() - i,
        {
            let a = &self.accounts[i];
            out.push(
                AccountMeta {
                    id: a.id.clone(),
                    display_name: a.display_name.clone(),
                    url: a.url.clone(),
                    username: a.username.clone(),
                },
            );
            i += 1;
        }
        assert(meta_views(out@) =~= self@.map_values(|a: AccountView| meta_of(a)));
        out
    }

    /// The first account with identifier `id`.
    pub fn account_by_id(&self, id: &str) -> (r: Option<&Account>)
        ensures
            match r {
                Some(a) => first_with_id(self@, id@) matches Some(i) && self@[i] == a@,
                None => first_with_id(self@, id@) is None,
            },
    {
        let mut i: usize = 0;
        while i < self.accounts.len()
            invariant
                i <= self.accounts@.len(),
                forall|j: int| 0 <= j < i ==> #[trigger] self@[j].id != id@,
            decreases self.accounts@.len() - i,
        {
            if str_eq(self.accounts[i].id.as_str(), id) {
                proof {
                    lemma_first_with_id(self@, id@, i as int);
                }
                return Some(&self.accounts[i]);
            }
            i += 1;
        }
        None
    }

    /// Adds `account`, replacing any account with the same identifier.
    pub fn insert_account(&mut self, account: Account)
        ensures
            final(self)@ == with_account(old(self)@, account@),
    {
        let ghost id = account.id@;
        let mut kept: Vec<Account> = Vec::new();
        let ghost orig = self@;
        let mut rest: Vec<Account> = Vec::new();
        std::mem::swap(&mut rest, &mut self.accounts);
        let ghost rv = rest@;
        let n = rest.len();
        let mut i: usize = 0;
        proof {
            assert(orig.take(0) =~= Seq::<AccountView>::empty());
            assert(kept@.map_values(|a: Account| a@) =~= Seq::<AccountView>::empty());
        }
        while rest.len() > 0
            invariant
                i + rest@.len() == rv.len(),
                rv.len() == n,
                orig == rv.map_values(|a: Account| a@),
                rest@ == rv.skip(i as int),
                kept@.map_values(|a: Account| a@) == without_id(orig.take(i as int), id),
                id == account.id@,
            decreases rest@.len(),
        {
            let a = rest.remove(0);
            proof {
                assert(orig.take(i + 1).drop_last() =~= orig.take(i as int));
                assert(orig.take(i + 1).last() == a@);
                assert(rest@ =~= rv.skip(i + 1));
            }
            if !str_eq(a.id.as_str(), account.id.as_str()) {
                kept.push(a);
            }
            i += 1;
            proof {
                assert(kept@.map_values(|a: Account| a@) =~= without_id(orig.take(i as int), id));
            }
        }
        proof {
            assert(orig.take(i as int) =~= orig);
        }
        kept.push(account);
        self.accounts = kept;
        assert(self@ =~= without_id(orig, id).push(account@));
    }

    /// Removes every account with identifier `id`, wiping the password of
    /// the first one before it is dropped.
    pub fn remove_account_entry(&mut self, id: &str)
        ensures
            final(self)@ == without_id(old(self)@, id@),
    {
        let mut kept: Vec<Account> = Vec::new();
        let ghost orig = self@;
        let mut rest: Vec<Account> = Vec::new();
        std::mem::swap(&mut rest, &mut self.accounts);
        let ghost rv = rest@;
        let n = rest.len();
        let mut wiped = false;
        let mut i: usize = 0;
        proof {
            assert(orig.take(0) =~= Seq::<AccountView>::empty());
            assert(kept@.map_values(|a: Account| a@) =~= Seq::<AccountView>::empty());
        }
        while rest.len() > 0
            invariant
                i + rest@.len() == rv.len(),
                rv.len() == n,
                orig == rv.map_values(|a: Account| a@),
                rest@ == rv.skip(i as int),
                kept@.map_values(|a: Account| a@) == without_id(orig.take(i as int), id@),
            decreases rest@.len(),
        {
            let mut a = rest.remove(0);
            proof {
                assert(orig.take(i + 1).drop_last() =~= orig.take(i as int));
                assert(orig.take(i + 1).last() == a@);
                assert(rest@ =~= rv.skip(i + 1));
            }
            if !str_eq(a.id.as_str(), id) {
                kept.push(a);
            } else if !wiped {
                zeroize_string(&mut a.password);
                wiped = true;
            }
            i += 1;
            proof {
                assert(kept@.map_values(|a: Account| a@) =~= without_id(orig.take(i as int), id@));
            }
        }
        proof {
            assert(orig.take(i as int) =~= orig);
        }
        self.accounts = kept;
    }
}

/// The accounts after adding `a`: those with another identifier, in order,
/// then `a`.
pub open spec fn with_account(s: Seq<AccountView>, a: AccountView) -> Seq<AccountView> {
    without_id(s, a.id).push(a)
}

/// Removing the accounts with identifier `id` leaves none with it, keeps
/// every other account, and adds none.
pub proof fn lemma_without_id(s: Seq<AccountView>, id: Seq<char>)
    ensures
        forall|i: int|
            0 <= i < without_id(s, id).len() ==> (#[trigger] without_id(s, id)[i]).id != id && s.contains(
                without_id(s, id)[i],
            ),
        forall|i: int| 0 <= i < s.len() && (#[trigger] s[i]).id != id ==> without_id(s, id).contains(s[i]),
        first_with_id(without_id(s, id), id) is None,
    decreases s.len(),
{
    if s.len() > 0 {
        let t = s.drop_last();
        lemma_without_id(t, id);
        let r = without_id(s, id);
        let rt = without_id(t, id);
        assert forall|i: int| 0 <= i < r.len() implies (#[trigger] r[i]).id != id && s.contains(r[i]) by {
            if i < rt.len() {
                assert(r[i] == rt[i]);
                let k = choose|k: int| 0 <= k < t.len() && t[k] == rt[i];
                assert(s[k] == t[k]);
            } else {
                assert(r[i] == s[s.len() - 1]);
            }
        }
        assert forall|i: int| 0 <= i < s.len() && (#[trigger] s[i]).id != id implies r.contains(s[i]) by {
            if i < s.len() - 1 {
                assert(t[i] == s[i]);
                assert(rt.contains(t[i]));
                let k = choose|k: int| 0 <= k < rt.len() && rt[k] == t[i];
                assert(r[k] == rt[k]);
            } else {
                assert(r[r.len() - 1] == s[i]);
            }
        }
    }
    let r = without_id(s, id);
    assert(!exists|i: int| 0 <= i < r.len() && r[i].id == id);
}

/// After an account is added, it is the only account with its identifier,
/// and looking that identifier up finds it.
pub proof fn lemma_added_account_found(s: Seq<AccountView>, a: AccountView)
    ensures
        forall|i: int|
            0 <= i < with_account(s, a).len() && (#[trigger] with_account(s, a)[i]).id == a.id ==> i
                == with_account(s, a).len() - 1,
        first_with_id(with_account(s, a), a.id) == Some(with_account(s, a).len() - 1),
        with_account(s, a).last() == a,
{
    lemma_without_id(s, a.id);
    let w = without_id(s, a.id);
    let r = with_account(s, a);
    assert forall|i: int| 0 <= i < r.len() && (#[trigger] r[i]).id == a.id implies i == r.len() - 1 by {
        if i < w.len() {
            assert(r[i] == w[i]);
        }
    }
    assert forall|j: int| 0 <= j < r.len() - 1 implies #[trigger] r[j].id != a.id by {
        assert(r[j] == w[j]);
    }
    lemma_first_with_id(r, a.id, r.len() - 1);
}

/// Reading back the stored form of the accounts, with the passwords they
/// had, gives the same accounts.
pub proof fn lemma_stored_round_trip(s: Seq<AccountView>)
    ensures
        accounts_from_stored(
            s.map_values(|a: AccountView| meta_of(a)),
            s.map_values(|a: AccountView| Some(a.password)),
        ) == s,
    decreases s.len(),
{
    if s.len() > 0 {
        let t = s.drop_last();
        lemma_stored_round_trip(t);
        assert(s.map_values(|a: AccountView| meta_of(a)).drop_last() =~= t.map_values(
            |a: AccountView| meta_of(a),
        ));
        assert(s.map_values(|a: AccountView| Some(a.password)).drop_last() =~= t.map_values(
            |a: AccountView| Some(a.password),
        ));
        assert(accounts_from_stored(
            s.map_values(|a: AccountView| meta_of(a)),
            s.map_values(|a: AccountView| Some(a.password)),
        ) =~= s);
    } else {
        assert(accounts_from_stored(
            s.map_values(|a: AccountView| meta_of(a)),
            s.map_values(|a: AccountView| Some(a.password)),
        ) =~= s);
    }
}

proof fn lemma_first_with_id(s: Seq<AccountView>, id: Seq<char>, i: int)
    requires
        0 <= i < s.len(),
        s[i].id == id,
        forall|j: int| 0 <= j < i ==> #[trigger] s[j].id != id,
    ensures
        first_with_id(s, id) == Some(i),
{
    let k = choose|k: int| 0 <= k < s.len() && s[k].id == id && forall|j: int| 0 <= j < k ==> s[j].id != id;
    if k < i {
        assert(s[k].id != id);
    } else if k > i {
        assert(s[i].id != id);
    }
}

} // verus!
