//! The operations, and what they share: how several index names are
//! written into a path, and the shard counts that the server reports.

pub mod mapping;
pub mod refresh;

use crate::json::{number_in, Document};
use vstd::prelude::*;
use vstd::string::*;

verus! {

/// The texts of `names`, in order.
pub open spec fn texts(names: Seq<String>) -> Seq<Seq<char>> {
    names.map_values(|name: String| name@)
}

/// `parts` joined by commas: nothing for no part, no comma before the first
/// part and none after the last.
pub open spec fn comma_joined(parts: Seq<Seq<char>>) -> Seq<char>
    decreases parts.len(),
{
    if parts.len() == 0 {
        Seq::empty()
    } else if parts.len() == 1 {
        parts[0]
    } else {
        comma_joined(parts.drop_last()) + seq![','] + parts.last()
    }
}

/// Joining one more part: the first part stands alone, every later one
/// follows a comma.
pub proof fn lemma_comma_joined_step(parts: Seq<Seq<char>>, count: int)
    requires
        0 <= count < parts.len(),
    ensures
        comma_joined(parts.take(count + 1)) == if count == 0 {
            parts[0]
        } else {
            comma_joined(parts.take(count)) + seq![','] + parts[count]
        },
{
    let longer = parts.take(count + 1);
    assert(longer.last() == parts[count]);
    assert(longer.drop_last() =~= parts.take(count));
}

/// Writes `parts` one after the other with a comma between each two.
pub fn comma_join(parts: &Vec<String>) -> (joined: String)
    ensures
        joined@ == comma_joined(texts(parts@)),
{
    let ghost all = texts(parts@);
    let mut joined = String::new();
    let mut done: usize = 0;
    while done < parts.len()
        invariant
            done <= parts.len(),
            all == texts(parts@),
            joined@ == comma_joined(all.take(done as int)),
        decreases parts.len() - done,
    {
        proof {
            lemma_comma_joined_step(all, done as int);
            reveal_strlit(",");
            assert(","@ =~= seq![',']);
        }
        if done > 0 {
            joined.append(",");
        }
        joined.append(parts[done].as_str());
        done += 1;
    }
    assert(all.take(done as int) =~= all);
    joined
}

/// The index names of a path: the names separated by commas, and nothing
/// where no index is named.
pub fn format_multi(indexes: &Vec<String>) -> (joined: String)
    ensures
        joined@ == comma_joined(texts(indexes@)),
{
    comma_join(indexes)
}

/// How many shards an operation reached, and with what success.
#[derive(Debug, Clone, Copy, PartialEq, Eq)]
pub struct ShardCountResult {
    pub total: u64,
    pub successful: u64,
    pub failed: u64,
}

/// The shard counts of a document: the three unsigned integers under
/// `_shards`. There are none unless all three are there.
pub open spec fn shard_counts_in(numbers: Map<Seq<char>, u64>) -> Option<ShardCountResult> {
    ShardCountResult::from_counts_spec(
        number_in(numbers, "/_shards/total"@),
        number_in(numbers, "/_shards/successful"@),
        number_in(numbers, "/_shards/failed"@),
    )
}

impl ShardCountResult {
    pub open spec fn from_counts_spec(
        total: Option<u64>,
        successful: Option<u64>,
        failed: Option<u64>,
    ) -> Option<ShardCountResult> {
        if total is Some && successful is Some && failed is Some {
            Some(
                ShardCountResult {
                    total: total->Some_0,
                    successful: successful->Some_0,
                    failed: failed->Some_0,
                },
            )
        } else {
            None
        }
    }

    /// The record of three counts, if none of them is missing.
    pub fn from_counts(total: Option<u64>, successful: Option<u64>, failed: Option<u64>) -> (r:
        Option<ShardCountResult>)
        ensures
            r == Self::from_counts_spec(total, successful, failed),
    {
        match (total, successful, failed) {
            (Some(total), Some(successful), Some(failed)) => Some(
                ShardCountResult { total, successful, failed },
            ),
            _ => None,
        }
    }

    /// Reads the counts under `_shards` out of a parsed body.
    pub fn from_document(document: &Document) -> (r: Option<ShardCountResult>)
        ensures
            r == shard_counts_in(document.numbers()),
    {
        let total = document.number_at("/_shards/total");
        let successful = document.number_at("/_shards/successful");
        let failed = document.number_at("/_shards/failed");
        Self::from_counts(total, successful, failed)
    }
}

} // verus!
