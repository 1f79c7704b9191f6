use vstd::prelude::*;
use vstd::string::StringExecFns;
use vstd::string::StrSliceExecFns;

use crate::ast::{RecordTypeDef, TypeDefinition, TypeExpr};
use crate::provider::{GeneratedModule, GeneratedTypes, ProviderError, Schema};

verus! {

broadcast use vstd::std_specs::vec::group_vec_axioms;

/// One parsed environment variable definition.
#[derive(Debug)]
pub struct EnvVar {
    /// The variable's name, as written.
    pub name: String,
    /// The type inferred from its value.
    pub var_type: EnvVarType,
    /// Whether a value must be provided: the definition had none, or a
    /// placeholder.
    pub required: bool,
    /// The default value, where one was given.
    pub default: Option<String>,
    /// The comment line above the definition, if any.
    pub description: Option<String>,
}

/// The type inferred for an environment variable's value.
#[derive(Debug, PartialEq)]
pub enum EnvVarType {
    String,
    Int,
    Float,
    Bool,
    Url,
    Path,
    /// A comma-separated list of the inner type.
    List(Box<EnvVarType>),
}

/// Whether a byte slice starts with the given prefix.
fn bytes_starts_with(s: &[u8], prefix: &[u8]) -> (r: bool)
    ensures
        r == (prefix@.len() <= s@.len() && s@.take(prefix@.len() as int) =~= prefix@),
{
    if prefix.len() > s.len() {
        return false;
    }
    let mut i: usize = 0;
    while i < prefix.len()
        invariant
            prefix@.len() <= s@.len(),
            i <= prefix@.len(),
            forall|j: int| 0 <= j < i ==> s@[j] == prefix@[j],
        decreases prefix@.len() - i,
    {
        if s[i] != prefix[i] {
            return false;
        }
        i = i + 1;
    }
    proof {
        assert(s@.take(prefix@.len() as int) =~= prefix@);
    }
    true
}

/// Whether the byte occurs in the slice.
fn bytes_contains(s: &[u8], b: u8) -> (r: bool)
    ensures
        r == (exists|j: int| 0 <= j < s@.len() && s@[j] == b),
{
    let mut i: usize = 0;
    while i < s.len()
        invariant
            i <= s@.len(),
            forall|j: int| 0 <= j < i ==> s@[j] != b,
        decreases s@.len() - i,
    {
        if s[i] == b {
            return true;
        }
        i = i + 1;
    }
    false
}

/// Whether `://` occurs in the slice.
fn bytes_contains_scheme(s: &[u8]) -> (r: bool)
{
    if s.len() < 3 {
        return false;
    }
    let mut i: usize = 0;
    while i < s.len() - 2
        invariant
            s@.len() >= 3,
            i <= s@.len(),
        decreases s@.len() - i,
    {
        if s[i] == 0x3a && s[i + 1] == 0x2f && s[i + 2] == 0x2f {
            return true;
        }
        i = i + 1;
    }
    false
}

/// Whether a byte is trimmable whitespace: space, tab or carriage
/// return.
pub open spec fn trimmable_spec(b: u8) -> bool {
    b == 0x20 || b == 0x09 || b == 0x0d
}

/// The bytes of an ASCII text, one per character.
pub open spec fn str_bytes(s: Seq<char>) -> Seq<u8> {
    Seq::new(s.len(), |i: int| (s[i]) as u8)
}

/// A text with no trimmable character anywhere: inference sees it
/// exactly as written.
pub open spec fn no_outer_space(s: Seq<char>) -> bool {
    forall|j: int| 0 <= j < s.len() ==> !trimmable_spec((#[trigger] s[j]) as u8)
}

fn is_trimmable(b: u8) -> (r: bool)
    ensures
        r == (b == 0x20 || b == 0x09 || b == 0x0d),
{
    b == 0x20 || b == 0x09 || b == 0x0d
}

/// The slice with ASCII whitespace removed from both ends.
fn trim_range(s: &str, from: usize, to: usize) -> (r: (usize, usize))
    requires
        s.is_ascii(),
        from <= to <= s@.len(),
    ensures
        from <= r.0 <= r.1 <= to,
        forall|j: int| from <= j < r.0 ==> trimmable_spec((#[trigger] s@[j]) as u8),
        forall|j: int| r.1 <= j < to ==> trimmable_spec((#[trigger] s@[j]) as u8),
        r.0 < r.1 ==> !trimmable_spec(s@[r.0 as int] as u8)
            && !trimmable_spec(s@[r.1 - 1] as u8),
{
    let mut a = from;
    let mut b = to;
    while a < b && is_trimmable(s.get_ascii(a))
        invariant
            s.is_ascii(),
            from <= a <= b <= to <= s@.len(),
            b == to,
            forall|j: int| from <= j < a ==> trimmable_spec((#[trigger] s@[j]) as u8),
        decreases b - a,
    {
        a = a + 1;
    }
    while b > a && is_trimmable(s.get_ascii(b - 1))
        invariant
            s.is_ascii(),
            from <= a <= b <= to <= s@.len(),
            a < b ==> !trimmable_spec(s@[a as int] as u8) || a == to,
            forall|j: int| b <= j < to ==> trimmable_spec((#[trigger] s@[j]) as u8),
        decreases b - a,
    {
        b = b - 1;
    }
    (a, b)
}

/// Whether a byte sequence is an integer numeral: an optional sign,
/// then one or more digits and nothing else.
pub open spec fn int_shape_spec(s: Seq<u8>) -> bool {
    let start: int = if s.len() > 0 && (s[0] == 0x2d || s[0] == 0x2b) {
        1
    } else {
        0
    };
    s.len() > start && (forall|j: int| start <= j < s.len()
        ==> 0x30 <= #[trigger] s[j] <= 0x39)
}

/// Whether every byte of the slice is an ASCII digit, and the slice is
/// not empty (with one optional leading sign).
fn is_int_shape(s: &[u8]) -> (r: bool)
    ensures
        r == int_shape_spec(s@),
{
    let mut i: usize = 0;
    if s.len() > 0 && (s[0] == 0x2d || s[0] == 0x2b) {
        i = 1;
    }
    if i >= s.len() {
        return false;
    }
    let start = i;
    let mut ok = true;
    while i < s.len()
        invariant
            start <= i <= s@.len(),
            start == 1 || start == 0,
            (start == 1) == (s@.len() > 0 && (s@[0] == 0x2d || s@[0] == 0x2b)),
            s@.len() > start,
            ok == (forall|j: int| start <= j < i ==> 0x30 <= #[trigger] s@[j] <= 0x39),
        decreases s@.len() - i,
    {
        let b = s[i];
        if !(0x30 <= b && b <= 0x39) {
            ok = false;
        }
        i = i + 1;
    }
    ok
}

/// Whether the slice is a decimal numeral with a fractional part:
/// an optional sign, digits, a dot, and digits.
fn is_decimal_shape(s: &[u8]) -> (r: bool)
{
    let mut i: usize = 0;
    if s.len() > 0 && (s[0] == 0x2d || s[0] == 0x2b) {
        i = 1;
    }
    let mut int_digits: u64 = 0;
    while i < s.len() && 0x30 <= s[i] && s[i] <= 0x39
        invariant
            i <= s@.len(),
        decreases s@.len() - i,
    {
        int_digits = if int_digits == u64::MAX { int_digits } else { int_digits + 1 };
        i = i + 1;
    }
    if int_digits == 0 {
        return false;
    }
    if i >= s.len() || s[i] != 0x2e {
        return false;
    }
    i = i + 1;
    let mut frac_digits: u64 = 0;
    while i < s.len() && 0x30 <= s[i] && s[i] <= 0x39
        invariant
            i <= s@.len(),
        decreases s@.len() - i,
    {
        frac_digits = if frac_digits == u64::MAX { frac_digits } else { frac_digits + 1 };
        i = i + 1;
    }
    frac_digits > 0 && i == s.len()
}

/// A byte with any ASCII upper-case letter folded to lower case.
pub open spec fn lower_byte_spec(b: u8) -> u8 {
    if 0x41 <= b <= 0x5a {
        (b + 0x20) as u8
    } else {
        b
    }
}

/// Whether a byte sequence equals a lower-case keyword, ignoring
/// ASCII case.
pub open spec fn keyword_ci(s: Seq<u8>, lower: Seq<u8>) -> bool {
    s.len() == lower.len() && (forall|i: int| 0 <= i < s.len()
        ==> lower_byte_spec(#[trigger] s[i]) == lower[i])
}

/// ASCII case-insensitive equality against a lower-case keyword.
fn eq_ignore_case(s: &[u8], lower: &[u8]) -> (r: bool)
    ensures
        r == keyword_ci(s@, lower@),
{
    if s.len() != lower.len() {
        return false;
    }
    let mut i: usize = 0;
    while i < s.len()
        invariant
            s@.len() == lower@.len(),
            i <= s@.len(),
            forall|j: int| 0 <= j < i ==> lower_byte_spec(#[trigger] s@[j])
                == lower@[j],
        decreases s@.len() - i,
    {
        let mut b = s[i];
        if 0x41 <= b && b <= 0x5a {
            b = b + 0x20;
        }
        if b != lower[i] {
            proof {
                assert(lower_byte_spec(s@[i as int]) != lower@[i as int]);
            }
            return false;
        }
        i = i + 1;
    }
    true
}

impl Clone for EnvVarType {
    /// A copy of the same type.
    fn clone(&self) -> (r: EnvVarType)
        ensures
            r == *self,
        decreases *self,
    {
        match self {
            EnvVarType::String => EnvVarType::String,
            EnvVarType::Int => EnvVarType::Int,
            EnvVarType::Float => EnvVarType::Float,
            EnvVarType::Bool => EnvVarType::Bool,
            EnvVarType::Url => EnvVarType::Url,
            EnvVarType::Path => EnvVarType::Path,
            EnvVarType::List(inner) => EnvVarType::List(Box::new((**inner).clone())),
        }
    }
}

impl EnvVarType {
    /// The surface-language name of this type. Addresses and file
    /// paths are strings; a list is its element type followed by
    /// `list`.
    pub fn to_fusabi_type(&self) -> (r: String)
        ensures
            *self matches EnvVarType::String ==> r@ == "string"@,
            *self matches EnvVarType::Int ==> r@ == "int"@,
            *self matches EnvVarType::Float ==> r@ == "float"@,
            *self matches EnvVarType::Bool ==> r@ == "bool"@,
            *self matches EnvVarType::Url ==> r@ == "string"@,
            *self matches EnvVarType::Path ==> r@ == "string"@,
        decreases *self,
    {
        match self {
            EnvVarType::String => String::from_str("string"),
            EnvVarType::Int => String::from_str("int"),
            EnvVarType::Float => String::from_str("float"),
            EnvVarType::Bool => String::from_str("bool"),
            EnvVarType::Url => String::from_str("string"),
            EnvVarType::Path => String::from_str("string"),
            EnvVarType::List(inner) => {
                let mut s = inner.to_fusabi_type();
                s.append(" list");
                s
            },
        }
    }

    /// Infer a type from a value's text: booleans, integers, decimal
    /// numerals, common address schemes, file paths, and
    /// comma-separated lists of those; anything else is a string. An
    /// empty value or a `$`-placeholder is a string.
    pub fn infer(value: &str) -> (r: EnvVarType)
        ensures
            !vstd::string::is_ascii(value) ==> r == EnvVarType::String,
            vstd::string::is_ascii(value) && no_outer_space(value@)
                && value@.len() == 0 ==> r == EnvVarType::String,
            vstd::string::is_ascii(value) && no_outer_space(value@)
                && value@.len() > 0 && value@[0] == '$'
                ==> r == EnvVarType::String,
            vstd::string::is_ascii(value) && no_outer_space(value@)
                && int_shape_spec(str_bytes(value@)) ==> r == EnvVarType::Int,
            vstd::string::is_ascii(value) && no_outer_space(value@)
                && (keyword_ci(str_bytes(value@), str_bytes("true"@))
                    || keyword_ci(str_bytes(value@), str_bytes("false"@)))
                ==> r == EnvVarType::Bool,
        decreases value@.len(),
    {
        if !value.is_ascii() {
            return EnvVarType::String;
        }
        let n = value.unicode_len();
        let (a, b) = trim_range(value, 0, n);
        proof {
            if no_outer_space(value@) {
                assert(a == 0 && b == n) by {
                    if a > 0 {
                        assert(trimmable_spec(value@[0] as u8));
                    }
                    if b < n {
                        assert(trimmable_spec(value@[n - 1] as u8));
                    }
                }
            }
        }
        let t = value.substring_ascii(a, b);
        proof {
            vstd::string::is_ascii_spec_bytes(t);
            if no_outer_space(value@) {
                assert(t@ =~= value@);
            }
        }
        let bytes = t.as_bytes();
        proof {
            if no_outer_space(value@) {
                assert(bytes@ =~= str_bytes(value@));
            }
            if no_outer_space(value@) && value@.len() > 0 {
                assert(bytes@[0] == value@[0] as u8);
            }
        }
        proof {
            reveal_strlit("true");
            reveal_strlit("false");
        }
        if bytes.len() == 0 || bytes[0] == 0x24 {
            proof {
                if no_outer_space(value@) && int_shape_spec(str_bytes(value@)) {
                    assert(str_bytes(value@).len() > 0);
                    assert(str_bytes(value@)[0] != 0x24);
                    assert(false);
                }
                if no_outer_space(value@) && (keyword_ci(
                    str_bytes(value@),
                    str_bytes("true"@),
                ) || keyword_ci(str_bytes(value@), str_bytes("false"@))) {
                    assert(lower_byte_spec(str_bytes(value@)[0]) == 't' as u8
                        || lower_byte_spec(str_bytes(value@)[0]) == 'f' as u8);
                    assert(false);
                }
            }
            return EnvVarType::String;
        }
        let kw_true = "true".as_bytes_vec();
        let kw_false = "false".as_bytes_vec();
        proof {
            assert(vstd::string::is_ascii("true"));
            assert(vstd::string::is_ascii("false"));
            vstd::string::is_ascii_spec_bytes("true");
            vstd::string::is_ascii_spec_bytes("false");
            assert(kw_true@ =~= str_bytes("true"@));
            assert(kw_false@ =~= str_bytes("false"@));
            assert(kw_true@[1] == 'r' as u8);
            assert(kw_false@[1] == 'a' as u8);
            assert(kw_true@.len() == 4 && kw_false@.len() == 5);
        }
        if eq_ignore_case(bytes, kw_true.as_slice())
            || eq_ignore_case(bytes, kw_false.as_slice()) {
            proof {
                if no_outer_space(value@) && int_shape_spec(str_bytes(value@)) {
                    assert(0x30 <= bytes@[1] <= 0x39);
                    assert(lower_byte_spec(bytes@[1]) == bytes@[1]);
                    assert(false);
                }
            }
            return EnvVarType::Bool;
        }
        if is_int_shape(bytes) {
            return EnvVarType::Int;
        }
        proof {
            if no_outer_space(value@) {
                assert(!int_shape_spec(str_bytes(value@)));
            }
        }
        if is_decimal_shape(bytes) {
            return EnvVarType::Float;
        }
        let p1 = "http://".as_bytes_vec();
        let p2 = "https://".as_bytes_vec();
        let p3 = "postgres://".as_bytes_vec();
        let p4 = "mysql://".as_bytes_vec();
        let p5 = "redis://".as_bytes_vec();
        let p6 = "mongodb://".as_bytes_vec();
        let p7 = "amqp://".as_bytes_vec();
        let p8 = "nats://".as_bytes_vec();
        if bytes_starts_with(bytes, p1.as_slice())
            || bytes_starts_with(bytes, p2.as_slice())
            || bytes_starts_with(bytes, p3.as_slice())
            || bytes_starts_with(bytes, p4.as_slice())
            || bytes_starts_with(bytes, p5.as_slice())
            || bytes_starts_with(bytes, p6.as_slice())
            || bytes_starts_with(bytes, p7.as_slice())
            || bytes_starts_with(bytes, p8.as_slice()) {
            return EnvVarType::Url;
        }
        let q1 = "/".as_bytes_vec();
        let q2 = "./".as_bytes_vec();
        let q3 = "../".as_bytes_vec();
        if bytes_starts_with(bytes, q1.as_slice())
            || bytes_starts_with(bytes, q2.as_slice())
            || bytes_starts_with(bytes, q3.as_slice())
            || (bytes_contains(bytes, 0x2f) && !bytes_contains_scheme(bytes)) {
            return EnvVarType::Path;
        }
        if bytes_contains(bytes, 0x2c) {
            // The first non-empty element decides the list's type.
            let mut start = a;
            let mut i = a;
            let mut found: Option<EnvVarType> = None;
            while i < b && matches!(found, Option::None)
                invariant
                    value.is_ascii(),
                    a <= start,
                    start <= i,
                    i <= b <= value@.len(),
                decreases b - i,
            {
                let at_comma = value.get_ascii(i) == 0x2c;
                if at_comma {
                    let (pa, pb) = trim_range(value, start, i);
                    if pb > pa {
                        let part = value.substring_ascii(pa, pb);
                        if part.unicode_len() < value.unicode_len() {
                            found = Some(EnvVarType::infer(part));
                        } else {
                            found = Some(EnvVarType::String);
                        }
                    }
                    start = i + 1;
                }
                i = i + 1;
            }
            let inner = match found {
                Some(t) => t,
                None => {
                    let (pa, pb) = trim_range(value, start, b);
                    if pb > pa && pb - pa < n {
                        let part = value.substring_ascii(pa, pb);
                        EnvVarType::infer(part)
                    } else {
                        EnvVarType::String
                    }
                },
            };
            return EnvVarType::List(Box::new(inner));
        }
        EnvVarType::String
    }
}

/// A parsed environment configuration: the variables in file order,
/// and the same variables grouped by their name's first `_`-separated
/// prefix, lowercased.
#[derive(Debug)]
pub struct ParsedEnvConfig {
    pub vars: Vec<EnvVar>,
    pub groups: Vec<(String, Vec<EnvVar>)>,
}

/// The byte lowercased when it is an ASCII capital.
fn lower_byte(b: u8) -> (r: u8)
    ensures
        0x41 <= b <= 0x5a ==> r == b + 0x20,
        !(0x41 <= b <= 0x5a) ==> r == b,
{
    if 0x41 <= b && b <= 0x5a {
        b + 0x20
    } else {
        b
    }
}

/// Append one ASCII byte to a string as a character.
fn push_ascii(out: &mut String, b: u8)
    requires
        b < 0x80,
    ensures
        final(out)@.len() == old(out)@.len() + 1,
{
    let mut v: Vec<u8> = Vec::new();
    v.push(b);
    let s = ascii_bytes_to_string(v);
    out.append(s.as_str());
}

/// Relies on `String::from_utf8`: ASCII bytes are valid UTF-8 and come
/// back as the same characters.
#[verifier::external_body]
fn ascii_bytes_to_string(v: Vec<u8>) -> (r: String)
    requires
        forall|i: int| 0 <= i < v@.len() ==> v@[i] < 0x80,
    ensures
        r@.len() == v@.len(),
        forall|i: int| 0 <= i < v@.len() ==> r@[i] == v@[i] as char,
{
    match String::from_utf8(v) {
        Ok(s) => s,
        Err(_) => String::new(),
    }
}

/// A copy of an ASCII string lowercased.
fn to_lower_ascii(s: &str) -> (r: String)
    requires
        s.is_ascii(),
{
    let n = s.unicode_len();
    let mut out: Vec<u8> = Vec::new();
    let mut i: usize = 0;
    while i < n
        invariant
            s.is_ascii(),
            n == s@.len(),
            i <= n,
            forall|j: int| 0 <= j < out@.len() ==> out@[j] < 0x80,
        decreases n - i,
    {
        let b = s.get_ascii(i);
        proof {
            vstd::utf8::is_ascii_chars_nat_bound(s@);
        }
        if b < 0x80 {
            out.push(lower_byte(b));
        }
        i = i + 1;
    }
    ascii_bytes_to_string(out)
}

impl ParsedEnvConfig {
    /// Parse the text of an environment file: comment lines carry
    /// forward as the next definition's description, and each
    /// `KEY=VALUE` line defines one variable whose type is inferred
    /// from the value. An empty or placeholder value marks the
    /// variable required. Only ASCII text is parsed.
    pub fn parse(content: &str) -> (r: ParsedEnvConfig)
        ensures
            !vstd::string::is_ascii(content) ==> r.vars@.len() == 0
                && r.groups@.len() == 0,
    {
        let mut vars: Vec<EnvVar> = Vec::new();
        if !content.is_ascii() {
            return ParsedEnvConfig { vars, groups: Vec::new() };
        }
        let n = content.unicode_len();
        if n == usize::MAX {
            return ParsedEnvConfig { vars, groups: Vec::new() };
        }
        let mut pos: usize = 0;
        let mut pending_comment: Option<String> = None;
        while pos <= n
            invariant
                content.is_ascii(),
                n == content@.len(),
                n < usize::MAX,
                pos <= n + 1,
            decreases n + 1 - pos,
        {
            // Find the end of this line.
            let mut line_end = pos;
            while line_end < n && content.get_ascii(line_end) != 0x0a
                invariant
                    content.is_ascii(),
                    n == content@.len(),
                    pos <= line_end <= n,
                decreases n - line_end,
            {
                line_end = line_end + 1;
            }
            let (a, b) = trim_range(content, pos, line_end);
            if b == a {
                pending_comment = None;
            } else if content.get_ascii(a) == 0x23 {
                let (ca, cb) = trim_range(content, a + 1, b);
                pending_comment = Some(String::from_str(
                    content.substring_ascii(ca, cb),
                ));
            } else {
                // Split at the first `=`.
                let mut eq = a;
                while eq < b && content.get_ascii(eq) != 0x3d
                    invariant
                        content.is_ascii(),
                        n == content@.len(),
                        a <= eq <= b <= n,
                    decreases b - eq,
                {
                    eq = eq + 1;
                }
                if eq < b {
                    let (ka, kb) = trim_range(content, a, eq);
                    let (va0, vb0) = trim_range(content, eq + 1, b);
                    // Remove surrounding quotes from the value.
                    let mut va = va0;
                    let mut vb = vb0;
                    if vb - va >= 2 {
                        let first = content.get_ascii(va);
                        let last = content.get_ascii(vb - 1);
                        if (first == 0x22 && last == 0x22)
                            || (first == 0x27 && last == 0x27) {
                            va = va + 1;
                            vb = vb - 1;
                        }
                    }
                    if kb > ka {
                        let key = content.substring_ascii(ka, kb);
                        let value = content.substring_ascii(va, vb);
                        let vbytes = value.as_bytes();
                        let required = vbytes.len() == 0 || vbytes[0] == 0x24;
                        let var_type = EnvVarType::infer(value);
                        let default: Option<String> = if required {
                            None
                        } else {
                            Some(String::from_str(value))
                        };
                        let description = match &pending_comment {
                            Some(c) => Some(c.clone()),
                            None => None,
                        };
                        pending_comment = None;
                        vars.push(EnvVar {
                            name: String::from_str(key),
                            var_type,
                            required,
                            default,
                            description,
                        });
                    }
                }
            }
            pos = line_end + 1;
        }
        let groups = group_by_prefix(&vars);
        ParsedEnvConfig { vars, groups }
    }
}

/// Copy one variable.
fn dup_env_var(v: &EnvVar) -> (r: EnvVar)
{
    EnvVar {
        name: v.name.clone(),
        var_type: v.var_type.clone(),
        required: v.required,
        default: match &v.default {
            Some(d) => Some(d.clone()),
            None => None,
        },
        description: match &v.description {
            Some(d) => Some(d.clone()),
            None => None,
        },
    }
}

/// Group variables by the lowercased first `_`-separated piece of
/// their names, keeping first-seen group order.
fn group_by_prefix(vars: &Vec<EnvVar>) -> (r: Vec<(String, Vec<EnvVar>)>)
{
    let mut groups: Vec<(String, Vec<EnvVar>)> = Vec::new();
    let mut i: usize = 0;
    while i < vars.len()
        decreases vars@.len() - i,
    {
        let nm = vars[i].name.as_str();
        let prefix: String = if nm.is_ascii() {
            let n = nm.unicode_len();
            let mut cut = 0usize;
            while cut < n && nm.get_ascii(cut) != 0x5f
                invariant
                    nm.is_ascii(),
                    n == nm@.len(),
                    cut <= n,
                decreases n - cut,
            {
                cut = cut + 1;
            }
            if cut == 0 {
                String::from_str("general")
            } else {
                to_lower_ascii(nm.substring_ascii(0, cut))
            }
        } else {
            String::from_str("general")
        };
        let mut found = false;
        let mut g: usize = 0;
        while g < groups.len()
            invariant
                g <= groups@.len(),
            decreases groups@.len() - g,
        {
            if crate::value::str_eq(groups[g].0.as_str(), prefix.as_str()) {
                found = true;
                break;
            }
            g = g + 1;
        }
        if found && g < groups.len() {
            let entry = groups.remove(g);
            let mut list = entry.1;
            list.push(dup_env_var(&vars[i]));
            groups.insert(g, (entry.0, list));
        } else {
            let mut list: Vec<EnvVar> = Vec::new();
            list.push(dup_env_var(&vars[i]));
            groups.push((prefix, list));
        }
        i = i + 1;
    }
    groups
}

/// The environment-file type provider: it turns parsed definitions
/// into one record of all variables plus grouped records.
#[derive(Debug)]
pub struct EnvConfigProvider {
}

impl EnvConfigProvider {
    /// A provider instance.
    pub fn new() -> (r: EnvConfigProvider)
    {
        EnvConfigProvider {  }
    }

    /// The provider's registered name.
    pub fn name(&self) -> (r: &'static str)
        ensures
            r@ == "EnvConfigProvider"@,
    {
        "EnvConfigProvider"
    }

    /// Turn raw schema text into generated types. Only environment
    /// file text is handled here; a JSON schema needs the embedding
    /// pipeline's resolver.
    pub fn generate_types(&self, schema: &Schema, namespace: &str) -> (r: Result<
        GeneratedTypes,
        ProviderError,
    >)
    {
        let content = match schema {
            Schema::Custom(s) => s.as_str(),
        };
        let bytes = content.as_bytes();
        let mut k: usize = 0;
        let mut first: Option<u8> = None;
        while k < bytes.len() && matches!(first, Option::None)
            invariant
                k <= bytes@.len(),
            decreases bytes@.len() - k,
        {
            let b = bytes[k];
            if b != 0x20 && b != 0x09 && b != 0x0a && b != 0x0d {
                first = Some(b);
            }
            k = k + 1;
        }
        if matches!(first, Some(0x7b)) {
            return Err(ProviderError::ParseError(String::from_str(
                "JSON schema resolution needs the embedding pipeline",
            )));
        }
        let config = ParsedEnvConfig::parse(content);
        self.generate_from_config(&config, namespace)
    }

    /// Generate a `Config` record of every variable, plus one record
    /// per group with more than one variable.
    pub fn generate_from_config(&self, config: &ParsedEnvConfig, namespace: &str) -> (r:
        Result<GeneratedTypes, ProviderError>)
        ensures
            r matches Ok(t) ==> t.modules@.len() >= 1,
    {
        let mut fields: Vec<(String, TypeExpr)> = Vec::new();
        let mut i: usize = 0;
        while i < config.vars.len()
            decreases config.vars@.len() - i,
        {
            let base = config.vars[i].var_type.to_fusabi_type();
            fields.push((config.vars[i].name.clone(), TypeExpr::Named(base)));
            i = i + 1;
        }
        let root_record = TypeDefinition::Record(RecordTypeDef {
            name: String::from_str("Config"),
            fields,
        });
        let mut group_types: Vec<TypeDefinition> = Vec::new();
        let mut g: usize = 0;
        while g < config.groups.len()
            decreases config.groups@.len() - g,
        {
            if config.groups[g].1.len() > 1 {
                let group_name = to_pascal_case(config.groups[g].0.as_str());
                let mut gfields: Vec<(String, TypeExpr)> = Vec::new();
                let mut j: usize = 0;
                while j < config.groups[g].1.len()
                    invariant
                        g < config.groups@.len(),
                    decreases config.groups@[g as int].1@.len() - j,
                {
                    let var = &config.groups[g].1[j];
                    let fname = strip_group_prefix(
                        var.name.as_str(),
                        config.groups[g].0.as_str(),
                    );
                    let base = var.var_type.to_fusabi_type();
                    gfields.push((fname, TypeExpr::Named(base)));
                    j = j + 1;
                }
                group_types.push(TypeDefinition::Record(RecordTypeDef {
                    name: group_name,
                    fields: gfields,
                }));
            }
            g = g + 1;
        }
        let mut root_path: Vec<String> = Vec::new();
        root_path.push(String::from_str(namespace));
        let mut root_types_mod: Vec<TypeDefinition> = Vec::new();
        root_types_mod.push(root_record);
        let mut modules: Vec<GeneratedModule> = Vec::new();
        modules.push(GeneratedModule { path: root_path, types: root_types_mod });
        if group_types.len() > 0 {
            let mut gpath: Vec<String> = Vec::new();
            gpath.push(String::from_str(namespace));
            gpath.push(String::from_str("Groups"));
            modules.push(GeneratedModule { path: gpath, types: group_types });
        }
        Ok(GeneratedTypes { modules, root_types: Vec::new() })
    }
}

/// The field name inside a group record: the variable's name with the
/// group's uppercased prefix and its underscore removed, camel-cased.
fn strip_group_prefix(name: &str, prefix: &str) -> (r: String)
{
    if !name.is_ascii() || !prefix.is_ascii() {
        return String::from_str(name);
    }
    let pn = prefix.unicode_len();
    let nn = name.unicode_len();
    let mut is_pref = nn > pn;
    if is_pref && name.get_ascii(pn) != 0x5f {
        is_pref = false;
    }
    if is_pref {
        let mut i: usize = 0;
        while i < pn
            invariant
                name.is_ascii(),
                prefix.is_ascii(),
                pn == prefix@.len(),
                nn == name@.len(),
                pn < nn,
                i <= pn,
            decreases pn - i,
        {
            proof {
                vstd::utf8::is_ascii_chars_nat_bound(name@);
                vstd::utf8::is_ascii_chars_nat_bound(prefix@);
            }
            if lower_byte(name.get_ascii(i)) != prefix.get_ascii(i) {
                is_pref = false;
            }
            i = i + 1;
        }
    }
    if is_pref {
        to_camel_case(name.substring_ascii(pn + 1, nn))
    } else {
        to_camel_case(name)
    }
}

/// Pascal-case a `_`-separated ASCII name: each piece's first letter
/// uppercased and the rest lowercased.
pub fn to_pascal_case(s: &str) -> (r: String)
{
    if !s.is_ascii() {
        return String::from_str(s);
    }
    let n = s.unicode_len();
    let mut out: Vec<u8> = Vec::new();
    let mut at_start = true;
    let mut i: usize = 0;
    while i < n
        invariant
            s.is_ascii(),
            n == s@.len(),
            i <= n,
            forall|j: int| 0 <= j < out@.len() ==> out@[j] < 0x80,
        decreases n - i,
    {
        let b = s.get_ascii(i);
        proof {
            vstd::utf8::is_ascii_chars_nat_bound(s@);
        }
        if b == 0x5f {
            at_start = true;
        } else if b < 0x80 {
            if at_start {
                out.push(upper_byte(b));
                at_start = false;
            } else {
                out.push(lower_byte(b));
            }
        }
        i = i + 1;
    }
    ascii_bytes_to_string(out)
}

/// Camel-case a `_`-separated ASCII name: pascal-case with the first
/// letter lowercased.
pub fn to_camel_case(s: &str) -> (r: String)
{
    let pascal = to_pascal_case(s);
    if !pascal.as_str().is_ascii() {
        return pascal;
    }
    let n = pascal.as_str().unicode_len();
    if n == 0 {
        return pascal;
    }
    let mut out: Vec<u8> = Vec::new();
    let mut i: usize = 0;
    while i < n
        invariant
            vstd::string::string_is_ascii(&pascal),
            n == pascal@.len(),
            i <= n,
            forall|j: int| 0 <= j < out@.len() ==> out@[j] < 0x80,
        decreases n - i,
    {
        let b = pascal.as_str().get_ascii(i);
        proof {
            vstd::utf8::is_ascii_chars_nat_bound(pascal@);
        }
        if b < 0x80 {
            if i == 0 {
                out.push(lower_byte(b));
            } else {
                out.push(b);
            }
        }
        i = i + 1;
    }
    ascii_bytes_to_string(out)
}

/// The byte uppercased when it is an ASCII small letter.
fn upper_byte(b: u8) -> (r: u8)
    ensures
        0x61 <= b <= 0x7a ==> r == b - 0x20,
        !(0x61 <= b <= 0x7a) ==> r == b,
{
    if 0x61 <= b && b <= 0x7a {
        b - 0x20
    } else {
        b
    }
}

} // verus!
