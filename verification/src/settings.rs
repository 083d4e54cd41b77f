//! The `"kubeconfig_editor"` section of the settings: backups, and which files Kubyl doesn't own
//! may be edited.

use crate::locations;
use crate::text;
use vstd::prelude::*;

verus! {

/// Kubeconfig editor settings.
#[derive(Debug, PartialEq)]
pub struct KubeconfigSettings {
    /// Timestamped backups kept per kubeconfig.
    pub backups_kept: usize,
    /// Offer "Edit this file" for kubeconfigs Kubyl doesn't own (`~/.kube/config`,
    /// `$KUBECONFIG`, added files). With `false` they stay read-only; "Save as a Kubyl copy"
    /// still works.
    pub allow_external_edits: bool,
    /// Kubeconfigs Kubyl doesn't own that the user turned editing on for.
    pub editable_files: Vec<String>,
}

impl Default for KubeconfigSettings {
    fn default() -> (r: KubeconfigSettings)
        ensures
            r.backups_kept == 10,
            r.allow_external_edits,
            r.editable_files@.len() == 0,
    {
        KubeconfigSettings {
            backups_kept: 10,
            allow_external_edits: true,
            editable_files: Vec::new(),
        }
    }
}

/// The files of a list but those that are a path once they are expanded.
pub open spec fn other_files(
    files: Seq<Seq<char>>,
    expanded: Seq<Seq<char>>,
    path: Seq<char>,
) -> Seq<Seq<char>>
    decreases files.len(),
{
    if files.len() == 0 {
        seq![]
    } else {
        let before = other_files(files.drop_last(), expanded, path);
        if locations::same_path(expanded[files.len() - 1], path) {
            before
        } else {
            before.push(files.last())
        }
    }
}

impl KubeconfigSettings {
    /// Whether the user turned editing on for `path`. `expanded` is [`Self::editable_files`]
    /// with the home folder filled in.
    pub fn opted_in(&self, path: &str, expanded: &Vec<String>) -> (r: bool)
        ensures
            r == (self.allow_external_edits && locations::listed(text::texts(expanded@), path@)),
    {
        self.allow_external_edits && locations::is_listed(expanded, path)
    }

    /// Turns editing on (or off) for a file Kubyl doesn't own. `expanded` is
    /// [`Self::editable_files`] with the home folder filled in, `display` the path as it is
    /// written there.
    pub fn set_opt_in(&mut self, path: &str, display: &str, expanded: &Vec<String>, on: bool)
        requires
            expanded@.len() == old(self).editable_files@.len(),
        ensures
            text::texts(final(self).editable_files@) == other_files(
                text::texts(old(self).editable_files@),
                text::texts(expanded@),
                path@,
            ) + if on {
                seq![display@]
            } else {
                seq![]
            },
            *final(self) == (KubeconfigSettings {
                editable_files: final(self).editable_files,
                ..*old(self)
            }),
    {
        let ghost files = text::texts(self.editable_files@);
        let ghost all = text::texts(expanded@);
        let mut kept: Vec<String> = Vec::new();
        let mut i: usize = 0;
        assert(files.take(0) =~= Seq::empty());
        assert(text::texts(kept@) =~= Seq::empty());
        while i < self.editable_files.len()
            invariant
                i <= self.editable_files@.len() == expanded@.len(),
                files == text::texts(self.editable_files@),
                all == text::texts(expanded@),
                text::texts(kept@) == other_files(files.take(i as int), all, path@),
            decreases self.editable_files@.len() - i,
        {
            broadcast use text::texts_push;

            assert(files.take(i + 1).drop_last() =~= files.take(i as int));
            assert(all[i as int] == expanded@[i as int]@);
            if !locations::is_same_path(expanded[i].as_str(), path) {
                kept.push(self.editable_files[i].clone());
            }
            i += 1;
        }
        assert(files.take(i as int) =~= files);
        let ghost before = text::texts(kept@);
        if on {
            kept.push(display.to_string());
        }
        assert(text::texts(kept@) =~= before + if on {
            seq![display@]
        } else {
            seq![]
        });
        self.editable_files = kept;
    }
}

proof fn lemma_other_paths(expanded: Seq<Seq<char>>, path: Seq<char>, n: int)
    requires
        0 <= n <= expanded.len(),
    ensures
        ({
            let kept = other_files(expanded.take(n), expanded, path);
            &&& !locations::listed(kept, path)
            &&& forall|i: int|
                0 <= i < n && !locations::same_path(expanded[i], path) ==> kept.contains(
                    #[trigger] expanded[i],
                )
        }),
    decreases n,
{
    if n > 0 {
        lemma_other_paths(expanded, path, n - 1);
        assert(expanded.take(n).drop_last() =~= expanded.take(n - 1));
        let before = other_files(expanded.take(n - 1), expanded, path);
        let kept = other_files(expanded.take(n), expanded, path);
        assert forall|i: int|
            0 <= i < n && !locations::same_path(expanded[i], path) implies kept.contains(
            #[trigger] expanded[i],
        ) by {
            if i < n - 1 {
                let j = choose|j: int| 0 <= j < before.len() && before[j] == expanded[i];
                assert(kept[j] == expanded[i]);
            } else {
                assert(kept[kept.len() - 1] == expanded[i]);
            }
        }
        assert forall|i: int| 0 <= i < kept.len() implies !locations::same_path(
            #[trigger] kept[i],
            path,
        ) by {
            if i < before.len() {
                assert(kept[i] == before[i]);
            }
        }
    }
}

/// Turning editing off for a file turns it off, and leaves it on for every other file;
/// `expanded` are the files with the home folder filled in.
pub proof fn turning_editing_off_is_for_one_file(expanded: Seq<Seq<char>>, path: Seq<char>)
    ensures
        !locations::listed(other_files(expanded, expanded, path), path),
        forall|other: Seq<char>|
            !locations::same_path(other, path) && locations::listed(expanded, other)
                ==> #[trigger] locations::listed(other_files(expanded, expanded, path), other),
{
    assert(expanded.take(expanded.len() as int) =~= expanded);
    lemma_other_paths(expanded, path, expanded.len() as int);
    let kept = other_files(expanded, expanded, path);
    assert forall|other: Seq<char>|
        !locations::same_path(other, path) && locations::listed(
            expanded,
            other,
        ) implies #[trigger] locations::listed(kept, other) by {
        let i = choose|i: int|
            0 <= i < expanded.len() && locations::same_path(#[trigger] expanded[i], other);
        assert(kept.contains(expanded[i]));
        let j = choose|j: int| 0 <= j < kept.len() && kept[j] == expanded[i];
        assert(locations::same_path(kept[j], other));
    }
}

} // verus!
