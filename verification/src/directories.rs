//! The directories that hold backups, and the order in which they are restored.
use crate::error::StoreError;
use crate::json_text::{is_refused_with, read_text};
use crate::restore::read_collection_name;
use crate::text_order::{
    lemma_asymmetric, lemma_irreflexive, lemma_less_not_less, precedes, text_less,
};
use vstd::prelude::*;
use vstd::seq_lib::lemma_multiset_commutative;

verus! {

/// The name of the file with the notes on a collection.
pub const METADATA_FILE: &'static str = "metadata.json";

/// The name of the file with the points of a collection.
pub const POINTS_FILE: &'static str = "points.avro";

/// Whether an entry of a directory holds a backup: it is a directory with both files.
pub fn holds_backup(is_dir: bool, has_metadata: bool, has_points: bool) -> (r: bool)
    ensures
        r <==> is_dir && has_metadata && has_points,
{
    is_dir && has_metadata && has_points
}

/// A directory that holds the backup of a collection, and the name of the collection.
#[derive(Debug, PartialEq)]
pub struct BackupDir {
    pub dir: String,
    pub name: String,
}

/// The directory as one that holds the backup of the collection that the text of the notes names.
pub fn backup_dir(dir: String, metadata: &str) -> (r: Result<BackupDir, StoreError>)
    ensures
        match r {
            Ok(found) => {
                &&& found.dir == dir
                &&& read_text(metadata@) matches Ok(t)
                &&& t.field("collection_name"@).as_text() == Some(found.name@)
            },
            Err(StoreError::Json(e)) => is_refused_with(metadata@, e),
            Err(StoreError::NoCollectionName) => read_text(metadata@) matches Ok(t) && t.field(
                "collection_name"@,
            ).as_text() is None,
            Err(_) => false,
        },
{
    match read_collection_name(metadata) {
        Ok(name) => Ok(BackupDir { dir, name }),
        Err(e) => Err(e),
    }
}

/// Whether no directory stands before one with a lesser name.
pub open spec fn sorted_by_name(dirs: Seq<BackupDir>) -> bool {
    forall|i: int, j: int|
        #![trigger dirs[i], dirs[j]]
        0 <= i < j < dirs.len() ==> !text_less(dirs[j].name@, dirs[i].name@)
}

/// The directories with the backups of collections of one name, in their order.
pub open spec fn with_name(dirs: Seq<BackupDir>, name: Seq<char>) -> Seq<BackupDir> {
    dirs.filter(|d: BackupDir| d.name@ == name)
}

/// The directories of one name are those of the list that have it, in the order of the list.
pub proof fn law_with_name(dirs: Seq<BackupDir>, d: BackupDir, name: Seq<char>)
    ensures
        with_name(Seq::empty(), name).len() == 0,
        d.name@ == name ==> with_name(dirs.push(d), name) == with_name(dirs, name).push(d),
        d.name@ != name ==> with_name(dirs.push(d), name) == with_name(dirs, name),
{
    reveal(Seq::filter);
    assert(dirs.push(d).drop_last() =~= dirs);
}

/// Puts the directories in the order of the names of their collections. Directories with backups
/// of collections of one name keep their order.
pub fn sort_by_name(dirs: Vec<BackupDir>) -> (r: Vec<BackupDir>)
    ensures
        sorted_by_name(r@),
        forall|name: Seq<char>| #[trigger] with_name(r@, name) == with_name(dirs@, name),
        r@.to_multiset() == dirs@.to_multiset(),
        forall|i: int, j: int|
            #![trigger r@[i], r@[j]]
            0 <= i < j < r@.len() ==> !text_less(r@[j].name@, r@[i].name@),
{
    let mut rest = dirs;
    let mut r: Vec<BackupDir> = Vec::new();
    assert(dirs@.skip(dirs@.len() as int) =~= r@);
    while rest.len() > 0
        invariant
            rest@.len() <= dirs@.len(),
            rest@ =~= dirs@.take(rest@.len() as int),
            sorted_by_name(r@),
            forall|name: Seq<char>|
                #[trigger] with_name(r@, name) == with_name(
                    dirs@.skip(rest@.len() as int),
                    name,
                ),
            r@.to_multiset() == dirs@.skip(rest@.len() as int).to_multiset(),
        decreases rest@.len(),
    {
        let d = rest.pop().unwrap();
        let mut i: usize = 0;
        while i < r.len() && precedes(r[i].name.as_str(), d.name.as_str())
            invariant
                i <= r@.len(),
                forall|k: int| 0 <= k < i ==> text_less((#[trigger] r@[k]).name@, d.name@),
            decreases r@.len() - i,
        {
            i += 1;
        }
        let ghost before = r@;
        r.insert(i, d);
        proof {
            lemma_inserted(before, i as int, d, r@);
            let n = rest@.len() as int;
            assert(dirs@.skip(n) =~= seq![d] + dirs@.skip(n + 1));
            lemma_multiset_commutative(seq![d], dirs@.skip(n + 1));
            assert forall|name: Seq<char>| #[trigger] with_name(r@, name) == with_name(
                dirs@.skip(n),
                name,
            ) by {
                let pred = |e: BackupDir| e.name@ == name;
                Seq::filter_distributes_over_add(seq![d], dirs@.skip(n + 1), pred);
                assert(with_name(before, name) == with_name(dirs@.skip(n + 1), name));
            }
        }
    }
    assert(dirs@.skip(0) =~= dirs@);
    r
}

/// A directory put in a sorted list after those with lesser names, and before the others, leaves
/// the list sorted, and comes first among those of its name.
proof fn lemma_inserted(before: Seq<BackupDir>, i: int, d: BackupDir, after: Seq<BackupDir>)
    requires
        sorted_by_name(before),
        0 <= i <= before.len(),
        after == before.insert(i, d),
        forall|k: int| 0 <= k < i ==> text_less((#[trigger] before[k]).name@, d.name@),
        i < before.len() ==> !text_less(before[i].name@, d.name@),
    ensures
        sorted_by_name(after),
        forall|name: Seq<char>|
            #[trigger] with_name(after, name) == seq![d].filter(|e: BackupDir| e.name@ == name)
                + with_name(before, name),
        after.to_multiset() == seq![d].to_multiset().add(before.to_multiset()),
{
    let l = before.take(i);
    let h = before.skip(i);
    assert(before =~= l + h);
    assert(after =~= l + (seq![d] + h));
    lemma_multiset_commutative(l, h);
    lemma_multiset_commutative(l, seq![d] + h);
    lemma_multiset_commutative(seq![d], h);
    assert(after.to_multiset() =~= seq![d].to_multiset().add(before.to_multiset()));
    assert forall|a: int, b: int|
        #![trigger after[a], after[b]]
        0 <= a < b < after.len() implies !text_less(after[b].name@, after[a].name@) by {
        let x = if a < i {
            before[a]
        } else if a == i {
            d
        } else {
            before[a - 1]
        };
        let y = if b < i {
            before[b]
        } else if b == i {
            d
        } else {
            before[b - 1]
        };
        assert(after[a] == x);
        assert(after[b] == y);
        if b == i {
            lemma_asymmetric(x.name@, d.name@);
        } else if a == i {
            let z = before[i];
            assert(!text_less(z.name@, d.name@));
            if text_less(y.name@, d.name@) {
                lemma_less_not_less(y.name@, d.name@, z.name@);
                if b - 1 > i {
                    assert(!text_less(before[b - 1].name@, before[i].name@));
                } else {
                    lemma_irreflexive(z.name@);
                }
            }
        }
    }
    assert forall|name: Seq<char>| #[trigger] with_name(after, name) == seq![d].filter(
        |e: BackupDir| e.name@ == name,
    ) + with_name(before, name) by {
        let pred = |e: BackupDir| e.name@ == name;
        Seq::filter_distributes_over_add(l, h, pred);
        Seq::filter_distributes_over_add(l, seq![d] + h, pred);
        Seq::filter_distributes_over_add(seq![d], h, pred);
        if d.name@ == name {
            assert forall|k: int| 0 <= k < l.len() implies !pred(#[trigger] l[k]) by {
                assert(text_less(before[k].name@, d.name@));
                lemma_irreflexive(name);
            }
            lemma_filter_none(l, pred);
        } else {
            lemma_filter_none(seq![d], pred);
        }
        assert(with_name(after, name) =~= seq![d].filter(pred) + with_name(before, name));
    }
}

/// A filter that nothing meets leaves nothing.
proof fn lemma_filter_none(s: Seq<BackupDir>, pred: spec_fn(BackupDir) -> bool)
    requires
        forall|k: int| 0 <= k < s.len() ==> !pred(#[trigger] s[k]),
    ensures
        s.filter(pred) == Seq::<BackupDir>::empty(),
    decreases s.len(),
{
    reveal(Seq::filter);
    if s.len() > 0 {
        assert(!pred(s[s.len() - 1]));
        assert forall|k: int| 0 <= k < s.drop_last().len() implies !pred(
            #[trigger] s.drop_last()[k],
        ) by {
            assert(!pred(s[k]));
        }
        lemma_filter_none(s.drop_last(), pred);
    } else {
        assert(s =~= Seq::<BackupDir>::empty());
    }
}

} // verus!
