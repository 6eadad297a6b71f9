//! Setup-time configuration parsing: the projector type grammar
//! `mlp<depth>x_gelu`, the patch-merge policy names, the supported
//! select-layer offsets, and the model name taken from a model path.
//! Configuration errors are raised here, before any tensor work.
use vstd::prelude::*;
use vstd::string::StrSliceExecFns;
use crate::errors::ConfigError;
use crate::merge::MergePolicy;

verus! {

/// A decimal digit, as a character.
pub open spec fn is_digit_char(c: char) -> bool {
    48 <= c as u32 <= 57
}

/// Every character of the sequence is a decimal digit.
pub open spec fn all_digits(ds: Seq<char>) -> bool {
    forall|i: int| 0 <= i < ds.len() ==> is_digit_char(ds[i])
}

/// The number the digit string denotes, most significant digit first.
pub open spec fn digits_value(ds: Seq<char>) -> int
    decreases ds.len(),
{
    if ds.len() == 0 {
        0
    } else {
        digits_value(ds.drop_last()) * 10 + (ds.last() as u32 - 48)
    }
}

proof fn lemma_digits_value_nonneg(ds: Seq<char>)
    requires
        all_digits(ds),
    ensures
        digits_value(ds) >= 0,
    decreases ds.len(),
{
    if ds.len() > 0 {
        assert(all_digits(ds.drop_last()));
        lemma_digits_value_nonneg(ds.drop_last());
        assert(digits_value(ds.drop_last()) * 10 >= 0) by (nonlinear_arith)
            requires
                digits_value(ds.drop_last()) >= 0,
        ;
    }
}

/// Reading more digits never shrinks the value.
proof fn lemma_digits_value_monotone(ds: Seq<char>, j: int)
    requires
        all_digits(ds),
        0 <= j <= ds.len(),
    ensures
        digits_value(ds.take(j)) <= digits_value(ds),
    decreases ds.len() - j,
{
    if j < ds.len() {
        assert(ds.take(j + 1).drop_last() =~= ds.take(j));
        let v: int = digits_value(ds.take(j));
        assert(all_digits(ds.take(j)));
        lemma_digits_value_nonneg(ds.take(j));
        assert(v * 10 + (ds.take(j + 1).last() as u32 - 48) >= v) by (nonlinear_arith)
            requires
                v >= 0,
                ds.take(j + 1).last() as u32 - 48 >= 0,
        ;
        lemma_digits_value_monotone(ds, j + 1);
    } else {
        assert(ds.take(j) =~= ds);
    }
}

/// The projector type grammar `mlp<depth>x_gelu`: the name "mlp", at least
/// one decimal digit, then "x_gelu", nothing else.
pub open spec fn is_mlp_gelu(s: Seq<char>) -> bool {
    &&& s.len() >= 10
    &&& s.subrange(0, 3) == seq!['m', 'l', 'p']
    &&& s.subrange(s.len() - 6, s.len() as int) == seq!['x', '_', 'g', 'e', 'l', 'u']
    &&& all_digits(s.subrange(3, s.len() - 6))
}

/// The depth a projector type of that grammar denotes.
pub open spec fn mlp_gelu_depth(s: Seq<char>) -> int {
    digits_value(s.subrange(3, s.len() - 6))
}

/// Parses a projector type of the shape `mlp<depth>x_gelu`, exactly:
/// `Some(depth)` when the string matches the grammar and the depth fits a
/// `usize`, `None` otherwise.
pub fn mlp_gelu_match(mm_projector_type: &str) -> (r: Option<usize>)
    ensures
        (r is Some) <==> (is_mlp_gelu(mm_projector_type@) && mlp_gelu_depth(mm_projector_type@)
            <= usize::MAX),
        r matches Some(d) ==> d == mlp_gelu_depth(mm_projector_type@),
{
    let s = mm_projector_type;
    let n: usize = s.unicode_len();
    if n < 10 {
        return None;
    }
    if !(s.get_char(0) == 'm' && s.get_char(1) == 'l' && s.get_char(2) == 'p') {
        proof {
            assert(!(s@.subrange(0, 3) =~= seq!['m', 'l', 'p']));
        }
        return None;
    }
    if !(s.get_char(n - 6) == 'x' && s.get_char(n - 5) == '_' && s.get_char(n - 4) == 'g'
        && s.get_char(n - 3) == 'e' && s.get_char(n - 2) == 'l' && s.get_char(n - 1) == 'u') {
        proof {
            assert(!(s@.subrange(n as int - 6, n as int) =~= seq!['x', '_', 'g', 'e', 'l', 'u']));
        }
        return None;
    }
    proof {
        assert(s@.subrange(0, 3) =~= seq!['m', 'l', 'p']);
        assert(s@.subrange(n as int - 6, n as int) =~= seq!['x', '_', 'g', 'e', 'l', 'u']);
    }
    let ghost digits = s@.subrange(3, n as int - 6);
    let mut i: usize = 3;
    let mut value: usize = 0;
    while i < n - 6
        invariant
            s == mm_projector_type,
            3 <= i <= n - 6,
            10 <= n == s@.len(),
            digits == s@.subrange(3, n as int - 6),
            all_digits(s@.subrange(3, i as int)),
            value == digits_value(s@.subrange(3, i as int)),
        decreases n - 6 - i,
    {
        let c = s.get_char(i);
        let code: u32 = c as u32;
        proof {
            assert(digits.take(i - 3) =~= s@.subrange(3, i as int));
            assert(digits.take(i - 3 + 1) =~= s@.subrange(3, i as int + 1));
            assert(s@.subrange(3, i as int + 1).drop_last() =~= s@.subrange(3, i as int));
        }
        if !(48 <= code && code <= 57) {
            proof {
                assert(!is_digit_char(digits[i - 3]));
            }
            return None;
        }
        let digit: usize = (code - 48) as usize;
        if value > (usize::MAX - digit) / 10 {
            proof {
                vstd::arithmetic::div_mod::lemma_fundamental_div_mod(
                    usize::MAX as int - digit,
                    10,
                );
                vstd::arithmetic::div_mod::lemma_mod_division_less_than_divisor(
                    usize::MAX as int - digit,
                    10,
                );
                vstd::arithmetic::mul::lemma_mul_inequality(
                    (usize::MAX as int - digit) / 10 + 1,
                    value as int,
                    10,
                );
                assert(value * 10 + digit > usize::MAX);
                assert(digits_value(s@.subrange(3, i as int + 1)) > usize::MAX);
                if all_digits(digits) {
                    lemma_digits_value_monotone(digits, i - 3 + 1);
                    assert(mlp_gelu_depth(s@) > usize::MAX);
                }
            }
            return None;
        }
        proof {
            vstd::arithmetic::div_mod::lemma_fundamental_div_mod(usize::MAX as int - digit, 10);
            vstd::arithmetic::div_mod::lemma_mod_division_less_than_divisor(
                usize::MAX as int - digit,
                10,
            );
            vstd::arithmetic::mul::lemma_mul_inequality(
                value as int,
                (usize::MAX as int - digit) / 10,
                10,
            );
        }
        value = value * 10 + digit;
        i = i + 1;
    }
    proof {
        assert(s@.subrange(3, i as int) =~= digits);
    }
    Some(value)
}

/// The multimodal projector a configuration names.
#[derive(Clone, Copy, Debug, PartialEq, Eq, Structural)]
pub enum ProjectorKind {
    /// One linear layer.
    Linear,
    /// `depth` linear layers with GELU activations between them.
    MlpGelu { depth: usize },
    /// The identity projection.
    Identity,
}

/// Resolves a projector type string: "linear", the `mlp<depth>x_gelu`
/// grammar, or "identity"; anything else is a configuration error.
pub fn projector_kind(mm_projector_type: &str) -> (r: Result<ProjectorKind, ConfigError>)
    ensures
        mm_projector_type@ == seq!['l', 'i', 'n', 'e', 'a', 'r'] ==> r == Ok::<
            ProjectorKind,
            ConfigError,
        >(ProjectorKind::Linear),
        is_mlp_gelu(mm_projector_type@) && mlp_gelu_depth(mm_projector_type@) <= usize::MAX ==> (
        r matches Ok(k) && k matches ProjectorKind::MlpGelu { depth } && depth == mlp_gelu_depth(
            mm_projector_type@,
        )),
        mm_projector_type@ == seq!['i', 'd', 'e', 'n', 't', 'i', 't', 'y'] ==> r == Ok::<
            ProjectorKind,
            ConfigError,
        >(ProjectorKind::Identity),
        (mm_projector_type@ != seq!['l', 'i', 'n', 'e', 'a', 'r'] && mm_projector_type@ != seq![
            'i',
            'd',
            'e',
            'n',
            't',
            'i',
            't',
            'y',
        ] && !(is_mlp_gelu(mm_projector_type@) && mlp_gelu_depth(mm_projector_type@)
            <= usize::MAX)) ==> r == Err::<ProjectorKind, ConfigError>(
            ConfigError::UnsupportedProjectorType,
        ),
{
    let s = mm_projector_type;
    let n: usize = s.unicode_len();
    if n == 6 && s.get_char(0) == 'l' && s.get_char(1) == 'i' && s.get_char(2) == 'n' && s.get_char(
        3,
    ) == 'e' && s.get_char(4) == 'a' && s.get_char(5) == 'r' {
        proof {
            assert(s@ =~= seq!['l', 'i', 'n', 'e', 'a', 'r']);
        }
        return Ok(ProjectorKind::Linear);
    }
    proof {
        assert(s@ != seq!['l', 'i', 'n', 'e', 'a', 'r']);
    }
    match mlp_gelu_match(s) {
        Some(depth) => {
            proof {
                // A grammar match always has at least ten characters, so it
                // is neither of the two fixed names.
                assert(s@ != seq!['i', 'd', 'e', 'n', 't', 'i', 't', 'y']);
            }
            Ok(ProjectorKind::MlpGelu { depth })
        },
        None => {
            if n == 8 && s.get_char(0) == 'i' && s.get_char(1) == 'd' && s.get_char(2) == 'e'
                && s.get_char(3) == 'n' && s.get_char(4) == 't' && s.get_char(5) == 'i'
                && s.get_char(6) == 't' && s.get_char(7) == 'y' {
                proof {
                    assert(s@ =~= seq!['i', 'd', 'e', 'n', 't', 'i', 't', 'y']);
                }
                Ok(ProjectorKind::Identity)
            } else {
                proof {
                    assert(s@ != seq!['i', 'd', 'e', 'n', 't', 'i', 't', 'y']);
                }
                Err(ConfigError::UnsupportedProjectorType)
            }
        },
    }
}

/// The patch-merge policy name "flat".
pub open spec fn flat_name() -> Seq<char> {
    seq!['f', 'l', 'a', 't']
}

/// The patch-merge policy name prefix "spatial".
pub open spec fn spatial_name() -> Seq<char> {
    seq!['s', 'p', 'a', 't', 'i', 'a', 'l']
}

/// The marker "unpad" inside a spatial policy name.
pub open spec fn unpad_name() -> Seq<char> {
    seq!['u', 'n', 'p', 'a', 'd']
}

/// The string contains "unpad" somewhere.
pub open spec fn has_unpad(s: Seq<char>) -> bool {
    exists|i: int| 0 <= i <= s.len() - 5 && #[trigger] s.subrange(i, i + 5) == unpad_name()
}

fn contains_unpad(s: &str) -> (r: bool)
    ensures
        r == has_unpad(s@),
{
    let n: usize = s.unicode_len();
    if n < 5 {
        return false;
    }
    let mut i: usize = 0;
    while i <= n - 5
        invariant
            5 <= n == s@.len(),
            0 <= i <= n - 5 + 1,
            forall|j: int| 0 <= j < i ==> #[trigger] s@.subrange(j, j + 5) != unpad_name(),
        decreases n - i,
    {
        if s.get_char(i) == 'u' && s.get_char(i + 1) == 'n' && s.get_char(i + 2) == 'p'
            && s.get_char(i + 3) == 'a' && s.get_char(i + 4) == 'd' {
            proof {
                assert(s@.subrange(i as int, i as int + 5) =~= unpad_name());
            }
            return true;
        }
        proof {
            assert(s@.subrange(i as int, i as int + 5) != unpad_name());
        }
        i = i + 1;
    }
    false
}

/// Resolves a patch-merge policy name: "flat" exactly, or any name that
/// starts with "spatial", with "unpad" anywhere in it selecting the
/// padding-removing variant. Any other name is a configuration error.
pub fn merge_policy_from_config(mm_patch_merge_type: &str) -> (r: Result<MergePolicy, ConfigError>)
    ensures
        mm_patch_merge_type@ == flat_name() ==> r == Ok::<MergePolicy, ConfigError>(
            MergePolicy::Flat,
        ),
        mm_patch_merge_type@ != flat_name() && mm_patch_merge_type@.len() >= 7
            && mm_patch_merge_type@.subrange(0, 7) == spatial_name() ==> r == Ok::<
            MergePolicy,
            ConfigError,
        >(
            if has_unpad(mm_patch_merge_type@) {
                MergePolicy::SpatialUnpad
            } else {
                MergePolicy::Spatial
            },
        ),
        (mm_patch_merge_type@ != flat_name() && !(mm_patch_merge_type@.len() >= 7
            && mm_patch_merge_type@.subrange(0, 7) == spatial_name())) ==> r == Err::<
            MergePolicy,
            ConfigError,
        >(ConfigError::UnsupportedMergePolicy),
{
    let s = mm_patch_merge_type;
    let n: usize = s.unicode_len();
    if n == 4 && s.get_char(0) == 'f' && s.get_char(1) == 'l' && s.get_char(2) == 'a' && s.get_char(
        3,
    ) == 't' {
        proof {
            assert(s@ =~= flat_name());
        }
        return Ok(MergePolicy::Flat);
    }
    proof {
        assert(s@ != flat_name());
    }
    if n >= 7 && s.get_char(0) == 's' && s.get_char(1) == 'p' && s.get_char(2) == 'a' && s.get_char(
        3,
    ) == 't' && s.get_char(4) == 'i' && s.get_char(5) == 'a' && s.get_char(6) == 'l' {
        proof {
            assert(s@.subrange(0, 7) =~= spatial_name());
        }
        if contains_unpad(s) {
            Ok(MergePolicy::SpatialUnpad)
        } else {
            Ok(MergePolicy::Spatial)
        }
    } else {
        proof {
            if s@.len() >= 7 {
                assert(!(s@.subrange(0, 7) =~= spatial_name()));
            }
        }
        Err(ConfigError::UnsupportedMergePolicy)
    }
}

/// Validates the vision-feature select-layer offset at load time: only -1
/// and -2 are supported.
pub fn validate_select_layer(select_layer: i64) -> (r: Result<i64, ConfigError>)
    ensures
        (r is Ok) <==> (select_layer == -1 || select_layer == -2),
        r matches Ok(v) ==> v == select_layer,
        r matches Err(e) ==> e == (ConfigError::UnsupportedSelectLayer { offset: select_layer }),
{
    if select_layer == -1 || select_layer == -2 {
        Ok(select_layer)
    } else {
        Err(ConfigError::UnsupportedSelectLayer { offset: select_layer })
    }
}

/// What remains of a path after its last '/' separator: the whole path
/// when it has none, the empty sequence when it ends in one.
pub open spec fn model_name_of(s: Seq<char>) -> Seq<char>
    decreases s.len(),
{
    if s.len() == 0 {
        s
    } else if s.last() == '/' {
        Seq::empty()
    } else {
        model_name_of(s.drop_last()).push(s.last())
    }
}

proof fn lemma_model_name_no_slash(s: Seq<char>)
    requires
        forall|k: int| 0 <= k < s.len() ==> s[k] != '/',
    ensures
        model_name_of(s) == s,
    decreases s.len(),
{
    if s.len() > 0 {
        lemma_model_name_no_slash(s.drop_last());
        assert(model_name_of(s.drop_last()).push(s.last()) =~= s);
    }
}

proof fn lemma_model_name_suffix(s: Seq<char>, j: int)
    requires
        0 <= j < s.len(),
        s[j] == '/',
        forall|k: int| j < k < s.len() ==> s[k] != '/',
    ensures
        model_name_of(s) == s.skip(j + 1),
    decreases s.len(),
{
    if j == s.len() - 1 {
        assert(model_name_of(s) =~= s.skip(j + 1));
    } else {
        lemma_model_name_suffix(s.drop_last(), j);
        assert(model_name_of(s.drop_last()).push(s.last()) =~= s.drop_last().skip(j + 1).push(
            s.last(),
        ));
        assert(s.drop_last().skip(j + 1).push(s.last()) =~= s.skip(j + 1));
    }
}

/// The model name at the end of a model path: everything after the last
/// '/' separator, the whole path when it has none.
pub fn get_model_name(path: &str) -> (r: String)
    ensures
        r@ == model_name_of(path@),
{
    let n: usize = path.unicode_len();
    let mut i: usize = n;
    let mut cut: usize = 0;
    let mut found = false;
    while i > 0
        invariant_except_break
            i <= n,
            n == path@.len(),
            !found,
            cut == 0,
            forall|k: int| i <= k < n ==> path@[k] != '/',
        ensures
            n == path@.len(),
            !found ==> cut == 0 && (forall|k: int| 0 <= k < n ==> path@[k] != '/'),
            found ==> 1 <= cut <= n && path@[cut - 1] == '/' && (forall|k: int|
                cut <= k < n ==> path@[k] != '/'),
        decreases i,
    {
        if path.get_char(i - 1) == '/' {
            found = true;
            cut = i;
            break;
        }
        i = i - 1;
    }
    let tail = path.substring_char(cut, n);
    proof {
        if found {
            lemma_model_name_suffix(path@, cut as int - 1);
            assert(tail@ =~= path@.skip(cut as int));
        } else {
            lemma_model_name_no_slash(path@);
            assert(tail@ =~= path@);
        }
    }
    tail.to_owned()
}

} // verus!
