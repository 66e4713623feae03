//! The data directory: where each store lives, and the two e-mail lists.
use crate::clock::now_ms;
use crate::config::{path_join, path_join_exec};
use crate::db::error::DbError;
use crate::db::lists::{
    law_has_agrees_with_listing, law_listings_agree_in_length, lemma_key_listed_iff_has,
    lemma_keys_after_add, lemma_keys_after_remove, lemma_listed_keys_finite, line_matches,
    listed_keys, rec_key, spec_added, spec_has, spec_listed, spec_removed, EmailList, ListLine,
    WaitlistRecord,
};
use crate::db::util::{looks_like_email, normalize_user_id, spec_looks_like_email, valid_user_id};
use crate::text::{ascii_lower, lemma_trim_idempotent, push_all, str_chars, string_from_chars, trim};
use vstd::prelude::*;

verus! {

/// A data directory and the contents of its waitlist and whitelist files.
#[derive(Debug)]
pub struct Manager {
    pub data_dir: String,
    pub waitlist: EmailList,
    pub whitelist: EmailList,
}

/// The directory everything lives under: the data directory, or `.` when it is empty.
pub open spec fn spec_root(data_dir: Seq<char>) -> Seq<char> {
    if data_dir.len() == 0 {
        "."@
    } else {
        data_dir
    }
}

pub open spec fn spec_users_dir(data_dir: Seq<char>) -> Seq<char> {
    path_join(spec_root(data_dir), "users"@)
}

/// The outcome of adding `email` to a list: `InvalidEmail` (list unchanged)
/// when it is not a plausible address, else the list after `spec_added`; a
/// new address needs the time, so an unreadable clock is an `Io` error that
/// leaves the list unchanged.
pub open spec fn list_add_outcome(
    old: Seq<crate::db::lists::ListLine>,
    new: Seq<crate::db::lists::ListLine>,
    email: Seq<char>,
    r: Result<(), DbError>,
) -> bool {
    if spec_looks_like_email(email) {
        ||| r is Ok && exists|now: i64| spec_added(old, new, email, now)
        ||| r matches Err(DbError::Io(_)) && !spec_has(old, email) && new == old
    } else {
        r == Err::<(), DbError>(DbError::InvalidEmail) && new == old
    }
}

impl Manager {
    pub fn new(data_dir: &str) -> (m: Self)
        ensures
            m.data_dir@ == data_dir@,
            m.waitlist.lines@.len() == 0,
            m.whitelist.lines@.len() == 0,
    {
        Manager {
            data_dir: String::from_str(data_dir),
            waitlist: EmailList::new(),
            whitelist: EmailList::new(),
        }
    }

    pub fn root(&self) -> (r: String)
        ensures
            r@ == spec_root(self.data_dir@),
    {
        if self.data_dir.unicode_len() == 0 {
            String::from_str(".")
        } else {
            self.data_dir.clone()
        }
    }

    fn users_dir(&self) -> (r: String)
        ensures
            r@ == spec_users_dir(self.data_dir@),
    {
        let root = self.root();
        path_join_exec(root.as_str(), "users")
    }

    pub fn users_db_path(&self) -> (r: String)
        ensures
            r@ == path_join(spec_users_dir(self.data_dir@), "users.db"@),
    {
        let d = self.users_dir();
        path_join_exec(d.as_str(), "users.db")
    }

    pub fn waitlist_path(&self) -> (r: String)
        ensures
            r@ == path_join(spec_users_dir(self.data_dir@), "waitlist.jsonl"@),
    {
        let d = self.users_dir();
        path_join_exec(d.as_str(), "waitlist.jsonl")
    }

    pub fn whitelist_path(&self) -> (r: String)
        ensures
            r@ == path_join(spec_users_dir(self.data_dir@), "whitelist.jsonl"@),
    {
        let d = self.users_dir();
        path_join_exec(d.as_str(), "whitelist.jsonl")
    }

    /// The database file of one user; `Unauthorized` for an id that is not a
    /// plain name.
    pub fn user_data_db_path(&self, user_id: &str) -> (r: Result<String, DbError>)
        ensures
            match r {
                Ok(p) => valid_user_id(trim(user_id@)) && p@ == path_join(
                    path_join(spec_users_dir(self.data_dir@), "userdata"@),
                    trim(user_id@) + ".db"@,
                ),
                Err(e) => e == DbError::Unauthorized && !valid_user_id(trim(user_id@)),
            },
    {
        let uid = match normalize_user_id(user_id) {
            Ok(u) => u,
            Err(e) => {
                return Err(e);
            },
        };
        let d = self.users_dir();
        let dd = path_join_exec(d.as_str(), "userdata");
        let mut name = uid;
        let ext = str_chars(".db");
        push_all(&mut name, ext.as_slice());
        let n = string_from_chars(name.as_slice());
        Ok(path_join_exec(dd.as_str(), n.as_str()))
    }

    pub fn waitlist_add(&mut self, email: &str) -> (r: Result<(), DbError>)
        ensures
            list_add_outcome(old(self).waitlist.lines@, final(self).waitlist.lines@, email@, r),
            r is Ok ==> listed_keys(final(self).waitlist.lines@) == listed_keys(old(self).waitlist.lines@).insert(
                ascii_lower(trim(email@)),
            ),
            r is Err ==> final(self).waitlist == old(self).waitlist,
            final(self).whitelist == old(self).whitelist,
            final(self).data_dir == old(self).data_dir,
    {
        proof {
            lemma_trim_idempotent(email@);
        }
        if !looks_like_email(email) {
            return Err(DbError::InvalidEmail);
        }
        if self.waitlist.has(email) {
            proof {
                assert(spec_added(self.waitlist.lines@, self.waitlist.lines@, email@, 0i64));
                lemma_keys_after_add(self.waitlist.lines@, self.waitlist.lines@, email@, 0i64);
            }
            return Ok(());
        }
        let now = match now_ms() {
            Some(t) => t,
            None => {
                return Err(DbError::Io(String::from_str("system clock before the Unix epoch")));
            },
        };
        self.waitlist.add(email, now);
        proof {
            lemma_keys_after_add(old(self).waitlist.lines@, self.waitlist.lines@, email@, now);
        }
        Ok(())
    }

    pub fn waitlist_list(&self) -> (out: Vec<WaitlistRecord>)
        ensures
            spec_listed(self.waitlist.lines@, out@),
            out@.len() == listed_keys(self.waitlist.lines@).len(),
    {
        let out = self.waitlist.list();
        proof {
            law_listings_agree_in_length(self.waitlist.lines@, out@, out@);
        }
        out
    }

    pub fn waitlist_count(&self) -> (n: usize)
        ensures
            exists|out: Seq<WaitlistRecord>| spec_listed(self.waitlist.lines@, out) && n == out.len(),
            n == listed_keys(self.waitlist.lines@).len(),
    {
        self.waitlist_list().len()
    }

    pub fn waitlist_has(&self, email: &str) -> (b: bool)
        ensures
            b == spec_has(self.waitlist.lines@, email@),
            b == (trim(email@).len() > 0 && listed_keys(self.waitlist.lines@).contains(
                ascii_lower(trim(email@)),
            )),
    {
        let b = self.waitlist.has(email);
        proof {
            if trim(email@).len() > 0 {
                lemma_key_listed_iff_has(self.waitlist.lines@, email@);
            }
        }
        b
    }

    pub fn waitlist_remove(&mut self, email: &str)
        ensures
            spec_removed(old(self).waitlist.lines@, final(self).waitlist.lines@, email@),
            trim(email@).len() > 0 ==> listed_keys(final(self).waitlist.lines@) == listed_keys(
                old(self).waitlist.lines@,
            ).remove(ascii_lower(trim(email@))),
            final(self).whitelist == old(self).whitelist,
            final(self).data_dir == old(self).data_dir,
    {
        self.waitlist.remove(email);
        proof {
            if trim(email@).len() > 0 {
                lemma_keys_after_remove(old(self).waitlist.lines@, self.waitlist.lines@, email@);
            }
        }
    }

    pub fn whitelist_add(&mut self, email: &str) -> (r: Result<(), DbError>)
        ensures
            list_add_outcome(old(self).whitelist.lines@, final(self).whitelist.lines@, email@, r),
            r is Ok ==> listed_keys(final(self).whitelist.lines@) == listed_keys(old(self).whitelist.lines@).insert(
                ascii_lower(trim(email@)),
            ),
            r is Err ==> final(self).whitelist == old(self).whitelist,
            final(self).waitlist == old(self).waitlist,
            final(self).data_dir == old(self).data_dir,
    {
        proof {
            lemma_trim_idempotent(email@);
        }
        if !looks_like_email(email) {
            return Err(DbError::InvalidEmail);
        }
        if self.whitelist.has(email) {
            proof {
                assert(spec_added(self.whitelist.lines@, self.whitelist.lines@, email@, 0i64));
                lemma_keys_after_add(self.whitelist.lines@, self.whitelist.lines@, email@, 0i64);
            }
            return Ok(());
        }
        let now = match now_ms() {
            Some(t) => t,
            None => {
                return Err(DbError::Io(String::from_str("system clock before the Unix epoch")));
            },
        };
        self.whitelist.add(email, now);
        proof {
            lemma_keys_after_add(old(self).whitelist.lines@, self.whitelist.lines@, email@, now);
        }
        Ok(())
    }

    pub fn whitelist_list(&self) -> (out: Vec<WaitlistRecord>)
        ensures
            spec_listed(self.whitelist.lines@, out@),
            out@.len() == listed_keys(self.whitelist.lines@).len(),
    {
        let out = self.whitelist.list();
        proof {
            law_listings_agree_in_length(self.whitelist.lines@, out@, out@);
        }
        out
    }

    pub fn whitelist_count(&self) -> (n: usize)
        ensures
            exists|out: Seq<WaitlistRecord>| spec_listed(self.whitelist.lines@, out) && n == out.len(),
            n == listed_keys(self.whitelist.lines@).len(),
    {
        self.whitelist_list().len()
    }

    pub fn whitelist_has(&self, email: &str) -> (b: bool)
        ensures
            b == spec_has(self.whitelist.lines@, email@),
            b == (trim(email@).len() > 0 && listed_keys(self.whitelist.lines@).contains(
                ascii_lower(trim(email@)),
            )),
    {
        let b = self.whitelist.has(email);
        proof {
            if trim(email@).len() > 0 {
                lemma_key_listed_iff_has(self.whitelist.lines@, email@);
            }
        }
        b
    }

    pub fn whitelist_remove(&mut self, email: &str)
        ensures
            spec_removed(old(self).whitelist.lines@, final(self).whitelist.lines@, email@),
            trim(email@).len() > 0 ==> listed_keys(final(self).whitelist.lines@) == listed_keys(
                old(self).whitelist.lines@,
            ).remove(ascii_lower(trim(email@))),
            final(self).waitlist == old(self).waitlist,
            final(self).data_dir == old(self).data_dir,
    {
        self.whitelist.remove(email);
        proof {
            if trim(email@).len() > 0 {
                lemma_keys_after_remove(old(self).whitelist.lines@, self.whitelist.lines@, email@);
            }
        }
    }
}

/// The waitlist count is the length of the waitlist's listing, for every
/// listing of it.
pub proof fn law_waitlist_count_is_listing_length(m: Manager, out: Seq<WaitlistRecord>)
    requires
        spec_listed(m.waitlist.lines@, out),
    ensures
        out.len() == listed_keys(m.waitlist.lines@).len(),
{
    law_listings_agree_in_length(m.waitlist.lines@, out, out);
}

/// The waitlist holds an address exactly when the address is not blank and
/// its listing has a record of it, ignoring ASCII case.
pub proof fn law_waitlist_has_agrees_with_listing(m: Manager, out: Seq<WaitlistRecord>, email: Seq<char>)
    requires
        spec_listed(m.waitlist.lines@, out),
    ensures
        spec_has(m.waitlist.lines@, email) <==> (trim(email).len() > 0 && exists|a: int|
            0 <= a < out.len() && #[trigger] rec_key(out[a]) == ascii_lower(trim(email))),
{
    law_has_agrees_with_listing(m.waitlist.lines@, out, email);
}

/// A successful add to the waitlist leaves the address on it and raises the
/// count by one for an address it did not hold, by none for one it held; a
/// refused add changes nothing.
pub proof fn law_waitlist_add_counts(before: Manager, after: Manager, email: Seq<char>, r: Result<(), DbError>)
    requires
        list_add_outcome(before.waitlist.lines@, after.waitlist.lines@, email, r),
    ensures
        r is Ok ==> spec_has(after.waitlist.lines@, email) && listed_keys(after.waitlist.lines@).len()
            == listed_keys(before.waitlist.lines@).len() + (if spec_has(before.waitlist.lines@, email) {
            0int
        } else {
            1int
        }),
        r is Err ==> after.waitlist.lines@ == before.waitlist.lines@,
{
    if r is Ok {
        let now = choose|now: i64| spec_added(before.waitlist.lines@, after.waitlist.lines@, email, now);
        lemma_trim_idempotent(email);
        lemma_keys_after_add(before.waitlist.lines@, after.waitlist.lines@, email, now);
        lemma_listed_keys_finite(before.waitlist.lines@);
        lemma_key_listed_iff_has(before.waitlist.lines@, email);
        lemma_key_listed_iff_has(after.waitlist.lines@, email);
    }
}

/// After a remove the waitlist no longer holds the address, the count drops by
/// one when it held it, and every record still listed is a record line of the
/// list before, of another address and with its time unchanged.
pub proof fn law_waitlist_remove_unlists(
    before: Manager,
    after: Manager,
    email: Seq<char>,
    out: Seq<WaitlistRecord>,
)
    requires
        spec_removed(before.waitlist.lines@, after.waitlist.lines@, email),
        spec_listed(after.waitlist.lines@, out),
    ensures
        !spec_has(after.waitlist.lines@, email),
        trim(email).len() > 0 ==> listed_keys(after.waitlist.lines@).len() == listed_keys(
            before.waitlist.lines@,
        ).len() - (if spec_has(before.waitlist.lines@, email) { 1int } else { 0int }),
        trim(email).len() > 0 ==> forall|a: int|
            0 <= a < out.len() ==> rec_key(#[trigger] out[a]) != ascii_lower(trim(email)),
        forall|a: int|
            0 <= a < out.len() ==> before.waitlist.lines@.contains(ListLine::Record(#[trigger] out[a])),
{
    let prev = before.waitlist.lines@;
    let next = after.waitlist.lines@;
    if trim(email).len() > 0 {
        lemma_keys_after_remove(prev, next, email);
        lemma_listed_keys_finite(prev);
        lemma_key_listed_iff_has(prev, email);
        lemma_key_listed_iff_has(next, email);
    }
    law_has_agrees_with_listing(next, out, email);
    assert forall|a: int| 0 <= a < out.len() && trim(email).len() > 0 implies rec_key(#[trigger] out[a])
        != ascii_lower(trim(email)) by {
        if rec_key(out[a]) == ascii_lower(trim(email)) {
            assert(spec_has(next, email));
        }
    }
    assert forall|a: int| 0 <= a < out.len() implies prev.contains(ListLine::Record(#[trigger] out[a])) by {
        assert(crate::db::lists::from_rep(next, out[a]));
        let j = choose|j: int| #![trigger crate::db::lists::is_rep(next, j)] crate::db::lists::is_rep(next, j)
            && out[a] == crate::db::lists::line_rec(next[j]);
        assert(next.contains(next[j]));
        if trim(email).len() > 0 {
            let pr = |l: ListLine| !line_matches(l, trim(email));
            prev.lemma_filter_contains_rev(pr, next[j]);
        }
        assert(next[j] == ListLine::Record(out[a]));
    }
}

/// The waitlist listing after a remove is the listing before without the
/// records of that address (ignoring ASCII case and surrounding blanks): the
/// other records stay with their times, and a blank address changes nothing.
pub proof fn law_waitlist_listing_after_remove(
    before: Manager,
    after: Manager,
    email: Seq<char>,
    listed_before: Seq<WaitlistRecord>,
    listed_after: Seq<WaitlistRecord>,
)
    requires
        spec_removed(before.waitlist.lines@, after.waitlist.lines@, email),
        spec_listed(before.waitlist.lines@, listed_before),
        spec_listed(after.waitlist.lines@, listed_after),
    ensures
        forall|r: WaitlistRecord|
            #[trigger] listed_after.contains(r) <==> (listed_before.contains(r) && (trim(email).len() > 0
                ==> rec_key(r) != ascii_lower(trim(email)))),
{
    crate::db::lists::law_listing_after_remove_is_filtered(
        before.waitlist.lines@,
        after.waitlist.lines@,
        email,
        listed_before,
        listed_after,
    );
}

} // verus!
