//! The files that hold the recipients' configurations.

use crate::text::{ends_with, has_suffix, texts};
use vstd::prelude::*;

verus! {

/// The directory that holds the configuration files.
pub const FOLDER: &'static str = "userconfig";

/// Whether a file of that name is a configuration: its name ends in
/// `.json`.
pub open spec fn is_config_name(name: Seq<char>) -> bool {
    has_suffix(name, ".json"@)
}

/// The names among `files` that are configurations, in their order.
pub open spec fn config_files(files: Seq<Seq<char>>) -> Seq<Seq<char>>
    decreases files.len(),
{
    if files.len() == 0 {
        Seq::empty()
    } else if is_config_name(files.last()) {
        config_files(files.drop_last()).push(files.last())
    } else {
        config_files(files.drop_last())
    }
}

/// The configuration files among the names that the directory holds.
pub fn get_existing_files(files: &Vec<String>) -> (list: Vec<String>)
    ensures
        texts(list@) == config_files(texts(files@)),
{
    let ghost all = texts(files@);
    let mut list: Vec<String> = Vec::new();
    let mut i: usize = 0;
    assert(texts(list@) =~= Seq::<Seq<char>>::empty());
    while i < files.len()
        invariant
            i <= files.len(),
            all == texts(files@),
            texts(list@) == config_files(all.take(i as int)),
        decreases files.len() - i,
    {
        let ghost done = texts(list@);
        proof {
            assert(all.take(i + 1).drop_last() =~= all.take(i as int));
            assert(all.take(i + 1).last() == files@[i as int]@);
        }
        if ends_with(files[i].as_str(), ".json") {
            list.push(files[i].clone());
            assert(texts(list@) =~= done.push(files@[i as int]@));
        }
        i += 1;
    }
    assert(all.take(all.len() as int) =~= all);
    list
}

} // verus!
