//! The credential bridge's parsing half: turning the vault subprocess's
//! environment dump into key/value assignments. Applying the assignments to
//! the process environment happens outside the library.

use vstd::prelude::*;

use crate::errors::ResolveError;
use crate::strutil::{
    find_substr, first_index_of, lemma_find_single_char, lemma_first_index_of,
};

verus! {

/// One environment assignment extracted from the vault's dump.
#[derive(Debug)]
pub struct EnvPair {
    pub key: String,
    pub value: String,
}

/// The mathematical content of an `EnvPair`.
#[verifier::ext_equal]
pub struct EnvPairV {
    pub key: Seq<char>,
    pub value: Seq<char>,
}

impl View for EnvPair {
    type V = EnvPairV;

    open spec fn view(&self) -> EnvPairV {
        EnvPairV { key: self.key@, value: self.value@ }
    }
}

impl DeepView for EnvPair {
    type V = EnvPairV;

    open spec fn deep_view(&self) -> EnvPairV {
        self.view()
    }
}

/// What a dump text parses to: one assignment per line, each line split at
/// its first `'='`, empty lines skipped; a non-empty line without `'='`
/// fails the whole parse. There are no quoting rules and no multi-line
/// values.
pub open spec fn spec_parse_dump(s: Seq<char>) -> Option<Seq<EnvPairV>>
    decreases s.len(),
    via spec_parse_dump_decreases
{
    if s.len() == 0 {
        Some(Seq::<EnvPairV>::empty())
    } else {
        let l = first_index_of(s, '\n');
        let line = s.subrange(0, l);
        let rest = if l < s.len() {
            s.subrange(l + 1, s.len() as int)
        } else {
            Seq::<char>::empty()
        };
        let tail = spec_parse_dump(rest);
        if line.len() == 0 {
            tail
        } else {
            let j = first_index_of(line, '=');
            if j == line.len() {
                None
            } else {
                match tail {
                    None => None,
                    Some(t) => Some(
                        seq![
                            EnvPairV {
                                key: line.subrange(0, j),
                                value: line.subrange(j + 1, line.len() as int),
                            },
                        ] + t,
                    ),
                }
            }
        }
    }
}

#[via_fn]
proof fn spec_parse_dump_decreases(s: Seq<char>) {
    if s.len() > 0 {
        lemma_first_index_of(s, '\n');
    }
}

/// Parses the captured dump of the vault's credential-injected subshell.
/// A malformed line fails the parse; a dump that yields no assignment at all
/// is a failure of its own, never an empty success.
#[verifier::loop_isolation(false)]
pub fn parse_env_dump(text: &str) -> (r: Result<Vec<EnvPair>, ResolveError>)
    ensures
        match r {
            Ok(pairs) => spec_parse_dump(text@) == Some(pairs.deep_view())
                && pairs.deep_view().len() > 0,
            Err(e) => (e == ResolveError::MalformedCredentialLine && spec_parse_dump(text@)
                is None) || (e == ResolveError::EmptyCredentialDump && spec_parse_dump(text@)
                == Some(Seq::<EnvPairV>::empty())),
        },
{
    let mut rem: &str = text;
    let mut out: Vec<EnvPair> = Vec::new();
    proof {
        assert(out.deep_view() =~= Seq::<EnvPairV>::empty());
    }
    loop
        invariant
            match spec_parse_dump(rem@) {
                None => spec_parse_dump(text@) is None,
                Some(t) => spec_parse_dump(text@) == Some(out.deep_view() + t),
            },
        decreases rem@.len(),
    {
        let n = rem.unicode_len();
        if n == 0 {
            break ;
        }
        proof {
            lemma_first_index_of(rem@, '\n');
            lemma_find_single_char(rem@, '\n');
            reveal_strlit("\n");
            assert("\n"@ =~= seq!['\n']);
        }
        let l = match find_substr(rem, "\n") {
            Some(i) => i,
            None => n,
        };
        let ghost pre = rem@;
        let ghost gl = first_index_of(pre, '\n');
        proof {
            assert(gl == l as int);
        }
        let line = rem.substring_char(0, l);
        if l < n {
            rem = rem.substring_char(l + 1, n);
        } else {
            rem = rem.substring_char(n, n);
            proof {
                assert(rem@ =~= Seq::<char>::empty());
            }
        }
        let ln = line.unicode_len();
        if ln > 0 {
            proof {
                lemma_first_index_of(line@, '=');
                lemma_find_single_char(line@, '=');
                reveal_strlit("=");
                assert("="@ =~= seq!['=']);
            }
            match find_substr(line, "=") {
                None => {
                    return Err(ResolveError::MalformedCredentialLine);
                },
                Some(j) => {
                    let key = line.substring_char(0, j).to_owned();
                    let value = line.substring_char(j + 1, ln).to_owned();
                    let ghost opre = out.deep_view();
                    let ghost pv = EnvPairV { key: key@, value: value@ };
                    out.push(EnvPair { key, value });
                    proof {
                        assert(out.deep_view() =~= opre.push(pv));
                        if spec_parse_dump(rem@) is Some {
                            let t = spec_parse_dump(rem@)->Some_0;
                            assert(opre + (seq![pv] + t) =~= out.deep_view() + t);
                        }
                    }
                },
            }
        }
    }
    proof {
        assert(out.deep_view() + Seq::<EnvPairV>::empty() =~= out.deep_view());
    }
    if out.len() == 0 {
        return Err(ResolveError::EmptyCredentialDump);
    }
    Ok(out)
}

} // verus!
