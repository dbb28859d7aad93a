//! The settings that locate and start the node under test: which
//! implementation it is, where its files go, and the command line that
//! starts it.

use vstd::prelude::*;
use vstd::string::StringExecFns;
use crate::external::{join_path, joined_path, split_words, words_of};
use crate::list::items_view;

verus! {

/// The implementations of the node under test.
#[derive(Debug, Clone, Copy, PartialEq, Eq, Structural)]
pub enum NodeKind {
    Zebra,
    Zcashd,
}

/// The name of the configuration file each implementation reads.
pub open spec fn config_file_name(kind: NodeKind) -> Seq<char> {
    match kind {
        NodeKind::Zebra => "zebra.toml"@,
        NodeKind::Zcashd => "zcash.conf"@,
    }
}

/// Why a start command cannot be used.
#[derive(Debug, Clone, Copy, PartialEq, Eq, Structural)]
pub enum ConfigError {
    /// The start command holds no words.
    EmptyStartCommand,
    /// Zebra's start command must end with an argument (`start`) before
    /// which the configuration arguments go.
    MissingZebraStartArg,
}

/// The arguments after the program name, with the configuration location
/// put in: for Zebra `--config <file>` just before the last argument, for
/// zcashd `-datadir=<dir>` at the end.
pub open spec fn expected_args(kind: NodeKind, args: Seq<Seq<char>>, dir: Seq<char>) -> Seq<Seq<char>> {
    match kind {
        NodeKind::Zebra => args.subrange(0, args.len() - 1) + seq![
            "--config"@,
            joined_path(dir, config_file_name(kind)),
        ] + seq![args.last()],
        NodeKind::Zcashd => args.push("-datadir="@ + dir),
    }
}

impl NodeKind {
    /// The path of this implementation's configuration file in `wrapping_dir`.
    pub fn config_filepath(&self, wrapping_dir: &str) -> (r: String)
        ensures
            r@ == joined_path(wrapping_dir@, config_file_name(*self)),
    {
        match self {
            NodeKind::Zebra => join_path(wrapping_dir, "zebra.toml"),
            NodeKind::Zcashd => join_path(wrapping_dir, "zcash.conf"),
        }
    }

    /// The path of the implementation's cache directory in `wrapping_dir`, for
    /// those that keep one.
    pub fn cache_path(&self, wrapping_dir: &str) -> (r: Option<String>)
        ensures
            *self == NodeKind::Zebra ==> r is None,
            *self == NodeKind::Zcashd ==> r is Some && r->Some_0@ == joined_path(wrapping_dir@, "testnet3"@),
    {
        match self {
            NodeKind::Zebra => None,
            NodeKind::Zcashd => Some(join_path(wrapping_dir, "testnet3")),
        }
    }

    /// Splits a start command into the program and its arguments, and puts
    /// in the arguments that point the node at its configuration in
    /// `config_dir`.
    pub fn start_invocation(&self, start_command: &str, config_dir: &str) -> (r: Result<(String, Vec<String>), ConfigError>)
        ensures
            words_of(start_command@).len() == 0 ==> r == Err::<(String, Vec<String>), ConfigError>(
                ConfigError::EmptyStartCommand,
            ),
            words_of(start_command@).len() == 1 && *self == NodeKind::Zebra ==> r == Err::<
                (String, Vec<String>),
                ConfigError,
            >(ConfigError::MissingZebraStartArg),
            (words_of(start_command@).len() >= 2 || (words_of(start_command@).len() == 1 && *self
                == NodeKind::Zcashd)) ==> r is Ok,
            r is Ok ==> r->Ok_0.0@ == words_of(start_command@)[0] && items_view(r->Ok_0.1@) == expected_args(
                *self,
                words_of(start_command@).drop_first(),
                config_dir@,
            ),
    {
        let words = split_words(start_command);
        let ghost w = words_of(start_command@);
        let n = words.len();
        if n == 0 {
            return Err(ConfigError::EmptyStartCommand);
        }
        if n == 1 && *self == NodeKind::Zebra {
            return Err(ConfigError::MissingZebraStartArg);
        }
        let program = words[0].clone();
        let last = match self {
            NodeKind::Zebra => n - 1,
            NodeKind::Zcashd => n,
        };
        let mut args: Vec<String> = Vec::new();
        let mut i: usize = 1;
        while i < last
            invariant
                1 <= i <= last <= n,
                n == words@.len(),
                w == items_view(words@),
                items_view(args@) == w.subrange(1, i as int),
            decreases last - i,
        {
            let ghost before = items_view(args@);
            args.push(words[i].clone());
            assert(w[i as int] == words@[i as int]@);
            assert(items_view(args@) =~= before.push(w[i as int]));
            assert(items_view(args@) =~= w.subrange(1, i + 1));
            i = i + 1;
        }
        let ghost a = w.drop_first();
        assert(w.subrange(1, last as int) =~= a.subrange(0, last - 1));
        match self {
            NodeKind::Zebra => {
                args.push("--config".to_owned());
                args.push(self.config_filepath(config_dir));
                args.push(words[n - 1].clone());
                assert(items_view(args@) =~= expected_args(*self, a, config_dir@));
            },
            NodeKind::Zcashd => {
                let mut datadir = "-datadir=".to_owned();
                datadir.append(config_dir);
                args.push(datadir);
                assert(a.subrange(0, a.len() as int) =~= a);
                assert(items_view(args@) =~= expected_args(*self, a, config_dir@));
            },
        }
        Ok((program, args))
    }
}

} // verus!
