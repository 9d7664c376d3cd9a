//! Which schemas are federation 2 schemas: those that link the federation
//! specification at a major version of 2 or more.
use vstd::prelude::*;
use crate::schema::{
    first_argument_string, schema_directive_count, schema_directive_name,
    schema_directive_string_argument, schema_directives, DirectiveShape,
};
use apollo_compiler::Schema;

verus! {

pub open spec fn is_digit(c: char) -> bool {
    '0' <= c && c <= '9'
}

pub open spec fn all_digits(s: Seq<char>) -> bool {
    forall|i: int| 0 <= i < s.len() ==> is_digit(#[trigger] s[i])
}

/// The number that a string of decimal digits writes.
pub open spec fn digits_value(s: Seq<char>) -> nat
    decreases s.len(),
{
    if s.len() == 0 {
        0
    } else {
        digits_value(s.drop_last()) * 10 + (s.last() as int - '0' as int) as nat
    }
}

/// The URL under which a schema links the federation specification, up to
/// the version number.
pub open spec fn federation_spec_prefix() -> Seq<char> {
    "https://specs.apollo.dev/federation/v"@
}

/// A version `MAJOR.MINOR`, both written in decimal digits, whose major
/// version is at least 2.
pub open spec fn is_version_at_least_2(v: Seq<char>) -> bool {
    exists|k: int|
        1 <= k && k + 1 < v.len() && v[k] == '.' && all_digits(#[trigger] v.take(k)) && all_digits(
            v.skip(k + 1),
        ) && digits_value(v.take(k)) >= 2
}

/// A link URL to the federation specification at major version 2 or more.
pub open spec fn is_federation_2_url(u: Seq<char>) -> bool {
    &&& u.len() > federation_spec_prefix().len()
    &&& u.take(federation_spec_prefix().len() as int) == federation_spec_prefix()
    &&& is_version_at_least_2(u.skip(federation_spec_prefix().len() as int))
}

/// A schema-level `@link` directive whose `url` argument is a federation 2 URL.
pub open spec fn is_federation_2_link(d: DirectiveShape) -> bool {
    &&& d.0 == "link"@
    &&& match first_argument_string(d.1, "url"@) {
        Some(u) => is_federation_2_url(u),
        None => false,
    }
}

/// The schema links the federation specification at major version 2 or more.
pub open spec fn is_fed_2_schema(schema: Schema) -> bool {
    exists|i: int|
        0 <= i < schema_directives(schema).len() && is_federation_2_link(
            #[trigger] schema_directives(schema)[i],
        )
}

proof fn lemma_capped_step(a: nat, d: nat)
    requires
        d < 10,
    ensures
        (if a * 10 + d >= 2 { 2 } else { a * 10 + d }) == (if (if a >= 2 { 2 } else { a }) * 10 + d
            >= 2 {
            2
        } else {
            (if a >= 2 { 2 } else { a }) * 10 + d
        }),
{
}

/// Only the first `.` of a version can separate its major and minor parts.
proof fn lemma_version_split_at_first_dot(v: Seq<char>, k: int)
    requires
        0 <= k <= v.len(),
        forall|j: int| 0 <= j < k ==> v[j] != '.',
        k < v.len() ==> v[k] == '.',
    ensures
        is_version_at_least_2(v) <==> (1 <= k && k + 1 < v.len() && all_digits(v.take(k))
            && all_digits(v.skip(k + 1)) && digits_value(v.take(k)) >= 2),
{
    if is_version_at_least_2(v) {
        let k2 = choose|k2: int|
            1 <= k2 && k2 + 1 < v.len() && v[k2] == '.' && all_digits(#[trigger] v.take(k2))
                && all_digits(v.skip(k2 + 1)) && digits_value(v.take(k2)) >= 2;
        if k < k2 {
            assert(v.take(k2)[k] == v[k]);
        }
    }
}

/// Decides `is_version_at_least_2`.
fn version_at_least_2(v: &str) -> (r: bool)
    ensures
        r == is_version_at_least_2(v@),
{
    let n = v.unicode_len();
    let mut k: usize = 0;
    while k < n && v.get_char(k) != '.'
        invariant
            n == v@.len(),
            k <= n,
            forall|j: int| 0 <= j < k ==> v@[j] != '.',
        decreases n - k,
    {
        k = k + 1;
    }
    proof {
        lemma_version_split_at_first_dot(v@, k as int);
    }
    if k == 0 || k >= n - 1 {
        return false;
    }
    let mut value: u64 = 0;
    let mut j: usize = 0;
    while j < k
        invariant
            n == v@.len(),
            k < n,
            j <= k,
            is_version_at_least_2(v@) <==> (1 <= k && k + 1 < v@.len() && all_digits(v@.take(k as int))
                && all_digits(v@.skip(k + 1)) && digits_value(v@.take(k as int)) >= 2),
            all_digits(v@.take(j as int)),
            value == (if digits_value(v@.take(j as int)) >= 2 {
                2
            } else {
                digits_value(v@.take(j as int))
            }),
        decreases k - j,
    {
        let c = v.get_char(j);
        if !('0' <= c && c <= '9') {
            assert(v@.take(k as int)[j as int] == c);
            return false;
        }
        let d: u64 = (c as u32 - '0' as u32) as u64;
        proof {
            let t = v@.take(j as int + 1);
            assert(t.drop_last() =~= v@.take(j as int));
            assert(t.last() == c);
            lemma_capped_step(digits_value(v@.take(j as int)), d as nat);
        }
        value = if value * 10 + d >= 2 { 2 } else { value * 10 + d };
        j = j + 1;
    }
    assert(v@.take(j as int) == v@.take(k as int));
    let mut m: usize = k + 1;
    while m < n
        invariant
            n == v@.len(),
            k + 1 <= m <= n,
            forall|i: int| k + 1 <= i < m ==> is_digit(v@[i]),
            is_version_at_least_2(v@) <==> (1 <= k && k + 1 < v@.len() && all_digits(v@.take(k as int))
                && all_digits(v@.skip(k + 1)) && digits_value(v@.take(k as int)) >= 2),
        decreases n - m,
    {
        let c = v.get_char(m);
        if !('0' <= c && c <= '9') {
            assert(v@.skip(k + 1)[m - k - 1] == c);
            return false;
        }
        m = m + 1;
    }
    assert forall|i: int| 0 <= i < v@.skip(k + 1).len() implies is_digit(
        #[trigger] v@.skip(k + 1)[i],
    ) by {
        assert(v@.skip(k + 1)[i] == v@[k + 1 + i]);
    }
    value >= 2
}

/// Decides `is_federation_2_url`.
pub fn is_federation_2_link_url(u: &str) -> (r: bool)
    ensures
        r == is_federation_2_url(u@),
{
    let prefix = "https://specs.apollo.dev/federation/v";
    let plen = prefix.unicode_len();
    let ulen = u.unicode_len();
    if ulen <= plen {
        return false;
    }
    let head = String::from_str(u.substring_char(0, plen));
    let expected = String::from_str(prefix);
    if !(head == expected) {
        return false;
    }
    version_at_least_2(u.substring_char(plen, ulen))
}

/// Decides `is_fed_2_schema`: whether some `@link` on the schema definition
/// links the federation specification at major version 2 or more.
pub fn is_fed_2(schema: &Schema) -> (r: bool)
    ensures
        r == is_fed_2_schema(*schema),
{
    let n = schema_directive_count(schema);
    let mut i: usize = 0;
    while i < n
        invariant
            n == schema_directives(*schema).len(),
            i <= n,
            forall|j: int| 0 <= j < i ==> !is_federation_2_link(#[trigger] schema_directives(*schema)[j]),
        decreases n - i,
    {
        let name = schema_directive_name(schema, i);
        let link = String::from_str("link");
        if name == link {
            let url = schema_directive_string_argument(schema, i, "url");
            match url {
                Some(u) => {
                    if is_federation_2_link_url(u.as_str()) {
                        assert(is_federation_2_link(schema_directives(*schema)[i as int]));
                        return true;
                    }
                },
                None => {},
            }
        }
        i = i + 1;
    }
    false
}

// ---------------------------------------------------------------------------
// Laws
// ---------------------------------------------------------------------------

/// `https://specs.apollo.dev/federation/vMAJOR.MINOR`, with both parts in
/// decimal digits, is a federation 2 URL exactly when MAJOR is at least 2.
pub proof fn law_federation_url(major: Seq<char>, minor: Seq<char>)
    requires
        major.len() > 0,
        minor.len() > 0,
        all_digits(major),
        all_digits(minor),
    ensures
        is_federation_2_url("https://specs.apollo.dev/federation/v"@ + major + "."@ + minor) <==> digits_value(
            major,
        ) >= 2,
{
    reveal_strlit(".");
    let prefix = "https://specs.apollo.dev/federation/v"@;
    let u = prefix + major + "."@ + minor;
    let v = major + "."@ + minor;
    let k = major.len() as int;
    assert(u.take(prefix.len() as int) =~= prefix);
    assert(u.skip(prefix.len() as int) =~= v);
    assert(v.take(k) =~= major);
    assert(v.skip(k + 1) =~= minor);
    assert(v[k] == '.');
    assert forall|i: int| 0 <= i < k implies v[i] != '.' by {
        assert(v[i] == major[i]);
        assert(is_digit(major[i]));
    }
    lemma_version_split_at_first_dot(v, k);
}

/// A schema is a federation 2 schema when any of its schema directives, at
/// any position and whatever directives come before it, is an `@link` whose
/// `url` links the federation specification at major version 2 or more.
pub proof fn law_fed_2_link_anywhere(schema: Schema, i: int, major: Seq<char>, minor: Seq<char>)
    requires
        0 <= i < schema_directives(schema).len(),
        schema_directives(schema)[i].0 == "link"@,
        first_argument_string(schema_directives(schema)[i].1, "url"@) == Some(
            "https://specs.apollo.dev/federation/v"@ + major + "."@ + minor,
        ),
        major.len() > 0,
        minor.len() > 0,
        all_digits(major),
        all_digits(minor),
        digits_value(major) >= 2,
    ensures
        is_fed_2_schema(schema),
{
    law_federation_url(major, minor);
    assert(is_federation_2_link(schema_directives(schema)[i]));
}

/// A federation 2 schema has, among its schema directives, an `@link` whose
/// `url` links the federation specification at major version 2 or more.
pub proof fn law_fed_2_has_federation_link(schema: Schema)
    requires
        is_fed_2_schema(schema),
    ensures
        exists|i: int, major: Seq<char>, minor: Seq<char>|
            #![trigger schema_directives(schema)[i], digits_value(major), all_digits(minor)]
            0 <= i < schema_directives(schema).len() && schema_directives(schema)[i].0 == "link"@
                && first_argument_string(schema_directives(schema)[i].1, "url"@) == Some(
                "https://specs.apollo.dev/federation/v"@ + major + "."@ + minor,
            ) && major.len() > 0 && minor.len() > 0 && all_digits(major) && all_digits(minor)
                && digits_value(major) >= 2,
{
    reveal_strlit(".");
    let i = choose|i: int|
        0 <= i < schema_directives(schema).len() && is_federation_2_link(
            #[trigger] schema_directives(schema)[i],
        );
    let u = first_argument_string(schema_directives(schema)[i].1, "url"@)->0;
    let prefix = federation_spec_prefix();
    let v = u.skip(prefix.len() as int);
    let k = choose|k: int|
        1 <= k && k + 1 < v.len() && v[k] == '.' && all_digits(#[trigger] v.take(k)) && all_digits(
            v.skip(k + 1),
        ) && digits_value(v.take(k)) >= 2;
    let major = v.take(k);
    let minor = v.skip(k + 1);
    assert(v =~= major + "."@ + minor);
    assert(u =~= prefix + v);
    assert(u =~= "https://specs.apollo.dev/federation/v"@ + major + "."@ + minor);
}

} // verus!
