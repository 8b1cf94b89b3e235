//! The configuration of a build pass, and the command line that has the
//! interface documents produced.

use crate::text::{join, joined, push_text, replace_dashes, underscored, views};
use vstd::prelude::*;

verus! {

/// What a build pass needs to know to generate bindings.
#[derive(Debug, Clone, PartialEq, Eq)]
pub struct Config {
    /// The namespace of the generated code.
    pub namespace: String,
    /// The name of the library that exposes the API.
    pub api_lib_name: String,
    /// The name of the crate that holds the API.
    pub parent_crate: String,
    /// The crates that hold the types of the API; the API crate is one of them.
    pub rustdoc_crates: Vec<String>,
    /// A prefix for the names of the generated files.
    pub file_prefix: Option<String>,
    /// A copyright line for the head of every generated file.
    pub copyright_header: Option<String>,
    /// A line for the head of every generated file that says what made it.
    pub generated_by_header: Option<String>,
    /// The feature flags to document the crates with.
    pub crate_feature_flags: Option<Vec<String>>,
    /// Further flags for the documentation tool.
    pub rustdoc_flags: Option<Vec<String>>,
}

/// The flags of an optional list; none where there is no list.
pub open spec fn flags_of(list: Option<Vec<String>>) -> Seq<String> {
    match list {
        Some(v) => v@,
        None => Seq::empty(),
    }
}

/// `flag` before each of `values`: the arguments that repeat an option.
pub open spec fn repeated(flag: Seq<char>, values: Seq<Seq<char>>) -> Seq<Seq<char>>
    decreases values.len(),
{
    if values.len() == 0 {
        Seq::empty()
    } else {
        repeated(flag, values.drop_last()).push(flag).push(values.last())
    }
}

/// The arguments of the documentation command: no dependencies, one `-p` for
/// each crate, one `-F` for each feature flag, then the further flags.
pub open spec fn documentation_arguments(
    crates: Seq<Seq<char>>,
    features: Seq<Seq<char>>,
    flags: Seq<Seq<char>>,
) -> Seq<Seq<char>> {
    seq!["--no-deps"@] + repeated("-p"@, crates) + repeated("-F"@, features) + flags
}

/// The names of `names` with dashes turned into underscores.
pub open spec fn crate_names(names: Seq<Seq<char>>) -> Seq<Seq<char>> {
    Seq::new(names.len(), |i: int| underscored(names[i]))
}

/// The list of crates that may use unstable features while they are
/// documented: the library and every documented crate, by crate name,
/// separated by commas.
pub open spec fn bootstrap_list(library: Seq<char>, crates: Seq<Seq<char>>) -> Seq<char> {
    joined(crate_names(seq![library] + crates), ","@)
}

/// How the documentation tool is to be run.
#[derive(Debug, Clone, PartialEq, Eq)]
pub struct DocumentationPlan {
    /// The arguments after `cargo doc`.
    pub arguments: Vec<String>,
    /// The value of `RUSTC_BOOTSTRAP`.
    pub bootstrap_crates: String,
}

impl Config {
    /// A configuration with the required fields; every optional one is unset.
    pub fn new(
        namespace: String,
        api_lib_name: String,
        parent_crate: String,
        rustdoc_crates: Vec<String>,
    ) -> (r: Config)
        ensures
            r.namespace == namespace,
            r.api_lib_name == api_lib_name,
            r.parent_crate == parent_crate,
            r.rustdoc_crates == rustdoc_crates,
            r.file_prefix is None,
            r.copyright_header is None,
            r.generated_by_header is None,
            r.crate_feature_flags is None,
            r.rustdoc_flags is None,
    {
        Config {
            namespace,
            api_lib_name,
            parent_crate,
            rustdoc_crates,
            file_prefix: None,
            copyright_header: None,
            generated_by_header: None,
            crate_feature_flags: None,
            rustdoc_flags: None,
        }
    }

    /// Adds `flags` after the flags for the documentation tool that are set.
    pub fn extend_rustdoc_flags(&mut self, flags: Vec<String>)
        ensures
            final(self).rustdoc_flags is Some,
            flags_of(final(self).rustdoc_flags) == flags_of(old(self).rustdoc_flags) + flags@,
            final(self).namespace == old(self).namespace,
            final(self).api_lib_name == old(self).api_lib_name,
            final(self).parent_crate == old(self).parent_crate,
            final(self).rustdoc_crates == old(self).rustdoc_crates,
            final(self).file_prefix == old(self).file_prefix,
            final(self).copyright_header == old(self).copyright_header,
            final(self).generated_by_header == old(self).generated_by_header,
            final(self).crate_feature_flags == old(self).crate_feature_flags,
    {
        let mut flags = flags;
        let merged = match self.rustdoc_flags.take() {
            Some(current) => {
                let mut current = current;
                current.append(&mut flags);
                current
            },
            None => {
                assert(Seq::<String>::empty() + flags@ =~= flags@);
                flags
            },
        };
        self.rustdoc_flags = Some(merged);
    }

    /// The prefix of the names of the generated files: the one that is set,
    /// or the name of the library.
    pub fn file_prefix(&self) -> (r: &String)
        ensures
            *r == match self.file_prefix {
                Some(p) => p,
                None => self.api_lib_name,
            },
    {
        match &self.file_prefix {
            Some(p) => p,
            None => &self.api_lib_name,
        }
    }

    /// How to run the documentation tool for this configuration. There is no
    /// way where no crate is to be documented.
    pub fn documentation_plan(&self) -> (r: Option<DocumentationPlan>)
        ensures
            r is Some <==> self.rustdoc_crates@.len() > 0,
            r matches Some(plan) ==> views(plan.arguments@) == documentation_arguments(
                views(self.rustdoc_crates@),
                views(flags_of(self.crate_feature_flags)),
                views(flags_of(self.rustdoc_flags)),
            ) && plan.bootstrap_crates@ == bootstrap_list(
                self.api_lib_name@,
                views(self.rustdoc_crates@),
            ),
    {
        if self.rustdoc_crates.len() == 0 {
            return None;
        }
        let none: Vec<String> = Vec::new();
        let features: &Vec<String> = match &self.crate_feature_flags {
            Some(v) => v,
            None => &none,
        };
        let flags: &Vec<String> = match &self.rustdoc_flags {
            Some(v) => v,
            None => &none,
        };
        let mut arguments: Vec<String> = Vec::new();
        arguments.push(String::from_str("--no-deps"));
        assert(views(arguments@) =~= seq!["--no-deps"@]);
        push_repeated(&mut arguments, "-p", &self.rustdoc_crates);
        push_repeated(&mut arguments, "-F", features);
        let ghost before = views(arguments@);
        let mut i: usize = 0;
        while i < flags.len()
            invariant
                i <= flags@.len(),
                views(arguments@) == before + views(flags@).take(i as int),
            decreases flags@.len() - i,
        {
            push_text(&mut arguments, flags[i].clone());
            i += 1;
            assert(views(flags@).take(i as int) =~= views(flags@).take(i - 1).push(
                flags@[i - 1]@,
            ));
            assert(views(arguments@) =~= before + views(flags@).take(i as int));
        }
        assert(views(flags@).take(i as int) =~= views(flags@));
        let mut names: Vec<String> = Vec::new();
        names.push(replace_dashes(self.api_lib_name.as_str()));
        let ghost all = seq![self.api_lib_name@] + views(self.rustdoc_crates@);
        assert(views(names@) =~= crate_names(all).take(1));
        let mut j: usize = 0;
        while j < self.rustdoc_crates.len()
            invariant
                j <= self.rustdoc_crates@.len(),
                all == seq![self.api_lib_name@] + views(self.rustdoc_crates@),
                views(names@) == crate_names(all).take(j + 1),
            decreases self.rustdoc_crates@.len() - j,
        {
            push_text(&mut names, replace_dashes(self.rustdoc_crates[j].as_str()));
            j += 1;
            assert(all[j as int] == self.rustdoc_crates@[j - 1]@);
            assert(crate_names(all).take(j + 1) =~= crate_names(all).take(j as int).push(
                underscored(all[j as int]),
            ));
        }
        assert(crate_names(all).take(j + 1) =~= crate_names(all));
        let bootstrap_crates = join(&names, ",");
        Some(DocumentationPlan { arguments, bootstrap_crates })
    }
}

/// Appends `flag` before each of `values` to `out`.
fn push_repeated(out: &mut Vec<String>, flag: &str, values: &Vec<String>)
    ensures
        views(final(out)@) == views(old(out)@) + repeated(flag@, views(values@)),
{
    let ghost before = views(out@);
    let ghost all = views(values@);
    let mut i: usize = 0;
    assert(all.take(0) =~= Seq::empty());
    assert(views(out@) =~= before + repeated(flag@, all.take(0)));
    while i < values.len()
        invariant
            i <= values@.len(),
            all == views(values@),
            views(out@) == before + repeated(flag@, all.take(i as int)),
        decreases values@.len() - i,
    {
        assert(all.take(i + 1).drop_last() =~= all.take(i as int));
        assert(all.take(i + 1).last() == values@[i as int]@);
        push_text(out, String::from_str(flag));
        push_text(out, values[i].clone());
        i += 1;
        assert(views(out@) =~= before + repeated(flag@, all.take(i as int)));
    }
    assert(all.take(i as int) =~= all);
}

} // verus!
