//! The user directory: credential derivation and the credential-to-id table.
//!
//! The panel hands out `(id, uuid)` records; the wire credential of a user is
//! the lowercase-hex SHA-224 of the UUID string's bytes. The directory maps
//! those 56-byte credentials to user ids and is replaced wholesale on every
//! refresh.

use vstd::prelude::*;
use vstd::pervasive::VecAdditionalExecFns;
use vstd::utf8::encode_utf8;
use crate::render::{bytes_eq, hex_lower, hex_lower_bytes, lemma_hex_lower_len};

verus! {

/// The SHA-224 digest of a byte string, named but not written out here.
pub uninterp spec fn sha224_of(data: Seq<u8>) -> Seq<u8>;

/// Relies on sha2's `Sha224`: the digest has 28 bytes and depends on the
/// input bytes alone.
#[verifier::external_body]
fn sha224_digest(data: &[u8]) -> (r: Vec<u8>)
    ensures
        r@ == sha224_of(data@),
        r@.len() == 28,
{
    let digest = <sha2::Sha224 as sha2::Digest>::digest(data);
    digest.to_vec()
}

/// The wire credential derived from a UUID string.
pub open spec fn cred_of_uuid(uuid: Seq<char>) -> Seq<u8> {
    hex_lower(sha224_of(encode_utf8(uuid)))
}

/// Derives the wire credential of a UUID string: the lowercase-hex SHA-224
/// of its bytes, exactly 56 ASCII bytes.
pub fn derive_credential(uuid: &str) -> (r: Vec<u8>)
    ensures
        r@ == cred_of_uuid(uuid@),
        r@.len() == 56,
{
    let digest = sha224_digest(uuid.as_bytes());
    proof {
        lemma_hex_lower_len(digest@);
    }
    hex_lower_bytes(digest.as_slice())
}

/// A user as the panel lists it.
#[derive(Debug, Clone)]
pub struct OriginalUserItem {
    pub id: i32,
    pub uuid: String,
}

/// A user as the directory stores it: id and derived credential.
#[derive(Debug)]
pub struct UserItem {
    pub id: i32,
    pub secret: Vec<u8>,
}

impl OriginalUserItem {
    /// The stored form of this record, with the credential derived.
    pub fn as_user_item(&self) -> (r: UserItem)
        ensures
            r.id == self.id,
            r.secret@ == cred_of_uuid(self.uuid@),
            r.secret@.len() == 56,
    {
        UserItem { id: self.id, secret: derive_credential(self.uuid.as_str()) }
    }
}

/// The credential table a sequence of stored users builds: a later record
/// with the same credential wins, as in a map filled front to back.
pub open spec fn dir_map(s: Seq<UserItem>) -> Map<Seq<u8>, i32>
    decreases s.len(),
{
    if s.len() == 0 {
        Map::empty()
    } else {
        dir_map(s.drop_last()).insert(s.last().secret@, s.last().id)
    }
}

/// The credential table a sequence of panel records builds.
pub open spec fn dir_map_records(s: Seq<OriginalUserItem>) -> Map<Seq<u8>, i32>
    decreases s.len(),
{
    if s.len() == 0 {
        Map::empty()
    } else {
        dir_map_records(s.drop_last()).insert(cred_of_uuid(s.last().uuid@), s.last().id)
    }
}

/// Whether no two stored records share a credential.
pub open spec fn unique_secrets(s: Seq<UserItem>) -> bool {
    forall|a: int, b: int| 0 <= a < b < s.len() ==> s[a].secret@ != s[b].secret@
}

/// A credential no record carries is not in the table.
proof fn lemma_dir_map_absent(s: Seq<UserItem>, k: Seq<u8>)
    requires
        forall|j: int| 0 <= j < s.len() ==> s[j].secret@ != k,
    ensures
        !dir_map(s).contains_key(k),
    decreases s.len(),
{
    if s.len() > 0 {
        let prefix = s.drop_last();
        assert(forall|j: int| 0 <= j < prefix.len() ==> prefix[j].secret@ != k);
        lemma_dir_map_absent(prefix, k);
        assert(s.last().secret@ != k);
    }
}

/// Overwriting the record that holds a credential is an insert on the table.
proof fn lemma_dir_map_update(s: Seq<UserItem>, j: int, t: UserItem)
    requires
        0 <= j < s.len(),
        s[j].secret@ == t.secret@,
        unique_secrets(s),
    ensures
        dir_map(s.update(j, t)) == dir_map(s).insert(t.secret@, t.id),
    decreases s.len(),
{
    let s2 = s.update(j, t);
    if j == s.len() - 1 {
        assert(s2.drop_last() =~= s.drop_last());
        assert(s2.last() == t);
        assert(dir_map(s2) =~= dir_map(s).insert(t.secret@, t.id));
    } else {
        let prefix = s.drop_last();
        assert(unique_secrets(prefix));
        lemma_dir_map_update(prefix, j, t);
        assert(s2.drop_last() =~= prefix.update(j, t));
        assert(s2.last() == s.last());
        assert(s.last().secret@ != t.secret@);
        assert(dir_map(s2) =~= dir_map(s).insert(t.secret@, t.id));
    }
}

/// With distinct credentials, the table has one key per record.
proof fn lemma_dir_map_size(s: Seq<UserItem>)
    requires
        unique_secrets(s),
    ensures
        dir_map(s).dom().finite(),
        dir_map(s).dom().len() == s.len(),
    decreases s.len(),
{
    broadcast use vstd::set::group_set_axioms;

    if s.len() == 0 {
        assert(dir_map(s).dom() =~= Set::<Seq<u8>>::empty());
    } else {
        let prefix = s.drop_last();
        assert(unique_secrets(prefix));
        lemma_dir_map_size(prefix);
        assert(forall|j: int| 0 <= j < prefix.len() ==> prefix[j].secret@ != s.last().secret@);
        lemma_dir_map_absent(prefix, s.last().secret@);
        assert(dir_map(s).dom() =~= dir_map(prefix).dom().insert(s.last().secret@));
        vstd::set::axiom_set_insert_len(dir_map(prefix).dom(), s.last().secret@);
    }
}

/// The first stored record holding the credential, if any does.
fn find_secret(items: &Vec<UserItem>, secret: &[u8]) -> (r: Option<usize>)
    ensures
        match r {
            Some(j) => j < items@.len() && items@[j as int].secret@ == secret@,
            None => forall|k: int| 0 <= k < items@.len() ==> items@[k].secret@ != secret@,
        },
{
    let mut j: usize = 0;
    while j < items.len()
        invariant
            j <= items@.len(),
            forall|k: int| 0 <= k < j ==> items@[k].secret@ != secret@,
        decreases items@.len() - j,
    {
        if bytes_eq(items[j].secret.as_slice(), secret) {
            return Some(j);
        }
        j = j + 1;
    }
    None
}

/// The credential-to-id directory. Readers see the mapping installed by the
/// most recent refresh; a refresh replaces it wholesale.
#[derive(Debug)]
pub struct UserCenter {
    store: Vec<UserItem>,
}

impl View for UserCenter {
    type V = Map<Seq<u8>, i32>;

    closed spec fn view(&self) -> Map<Seq<u8>, i32> {
        dir_map(self.store@)
    }
}

impl UserCenter {
    /// How many records the directory holds, duplicates included.
    pub closed spec fn record_count(&self) -> nat {
        self.store@.len()
    }

    /// An empty directory: no credential validates.
    pub fn new() -> (r: UserCenter)
        ensures
            r@ == Map::<Seq<u8>, i32>::empty(),
            r.record_count() == 0,
    {
        UserCenter { store: Vec::new() }
    }

    /// How many records the directory holds.
    pub fn user_count(&self) -> (r: usize)
        ensures
            r == self.record_count(),
    {
        self.store.len()
    }

    /// Replaces the whole mapping with the one the given records build.
    /// Nothing of the old mapping survives: the new view depends on the
    /// records alone.
    pub fn replace_users(&mut self, users: Vec<UserItem>)
        ensures
            final(self)@ == dir_map(users@),
            final(self).record_count() == users@.len(),
    {
        self.store = users;
    }

    /// Derives credentials for the panel's records and installs the fresh
    /// mapping in place of the old one. One record is stored per distinct
    /// credential — a later record with the same credential overwrites the
    /// earlier one — so the stored count is the mapping's size.
    pub fn install(&mut self, records: &Vec<OriginalUserItem>)
        ensures
            final(self)@ == dir_map_records(records@),
            final(self)@.dom().finite(),
            final(self).record_count() == final(self)@.dom().len(),
    {
        let mut items: Vec<UserItem> = Vec::new();
        let mut i: usize = 0;
        proof {
            assert(records@.subrange(0, 0) =~= Seq::<OriginalUserItem>::empty());
        }
        while i < records.len()
            invariant
                i <= records@.len(),
                unique_secrets(items@),
                dir_map(items@) == dir_map_records(records@.subrange(0, i as int)),
            decreases records@.len() - i,
        {
            let item = records[i].as_user_item();
            proof {
                let pre = records@.subrange(0, i as int);
                let post = records@.subrange(0, i + 1);
                assert(post.drop_last() =~= pre);
                assert(post.last() == records@[i as int]);
            }
            match find_secret(&items, item.secret.as_slice()) {
                Some(j) => {
                    let ghost before = items@;
                    proof {
                        lemma_dir_map_update(before, j as int, item);
                    }
                    items.set(j, item);
                    proof {
                        assert(forall|k: int|
                            0 <= k < items@.len() ==> #[trigger] items@[k].secret@
                                == before[k].secret@);
                        assert(unique_secrets(items@));
                    }
                },
                None => {
                    proof {
                        assert(items@.push(item).drop_last() =~= items@);
                    }
                    items.push(item);
                },
            }
            i = i + 1;
        }
        proof {
            assert(records@.subrange(0, records@.len() as int) =~= records@);
            lemma_dir_map_size(items@);
        }
        self.store = items;
    }

    /// Looks the credential up in the current snapshot. A hit returns the
    /// user's id; a miss returns `-1`.
    pub fn validate(&self, secret: &[u8]) -> (r: (bool, i32))
        ensures
            r.0 == self@.contains_key(secret@),
            r.0 ==> self@.contains_key(secret@) && self@[secret@] == r.1,
            !r.0 ==> r.1 == -1,
    {
        let mut j: usize = self.store.len();
        proof {
            assert(self.store@.subrange(0, j as int) =~= self.store@);
        }
        while j > 0
            invariant
                j <= self.store@.len(),
                dir_map(self.store@).contains_key(secret@) == dir_map(
                    self.store@.subrange(0, j as int),
                ).contains_key(secret@),
                dir_map(self.store@).contains_key(secret@) ==> dir_map(self.store@)[secret@] == dir_map(
                    self.store@.subrange(0, j as int),
                )[secret@],
            decreases j,
        {
            let item = &self.store[j - 1];
            proof {
                let pre = self.store@.subrange(0, j as int);
                assert(pre.drop_last() =~= self.store@.subrange(0, j - 1));
                assert(pre.last() == self.store@[j - 1]);
            }
            if bytes_eq(item.secret.as_slice(), secret) {
                proof {
                    let pre = self.store@.subrange(0, j as int);
                    assert(pre.last().secret@ == secret@);
                    assert(dir_map(pre) == dir_map(pre.drop_last()).insert(
                        pre.last().secret@,
                        pre.last().id,
                    ));
                    assert(dir_map(pre).contains_key(secret@));
                    assert(dir_map(pre)[secret@] == pre.last().id);
                }
                return (true, item.id);
            }
            j = j - 1;
        }
        proof {
            assert(self.store@.subrange(0, 0) =~= Seq::<UserItem>::empty());
        }
        (false, -1)
    }
}

impl Default for UserCenter {
    /// The empty directory.
    fn default() -> (r: UserCenter)
        ensures
            r@ == Map::<Seq<u8>, i32>::empty(),
    {
        UserCenter::new()
    }
}

} // verus!
