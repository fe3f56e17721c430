//! The rules that single parts of a configuration have to meet.

use crate::config_model::{
    ConfigError, EffectiveResources, EffectiveStep,
};
#[allow(unused_imports)]
use crate::config_model::ConfigFault;
use crate::outside::{
    add_glob, build_glob_set, compile_glob, matches_glob_set, new_glob_builder,
};
#[allow(unused_imports)]
use crate::outside::{
    builder_rules, glob_fault, glob_matches, glob_rule, glob_set_fault, rule_of, set_rules,
    GlobRule,
};
#[allow(unused_imports)]
use crate::seqs::{lemma_filter_ends, lemma_filter_step};
use crate::text::{
    chars_of, concat3, contains_char, contains_text, insert_text, join_strings, slice_text,
    split_str, str_equal,
};
#[allow(unused_imports)]
use crate::text::{ascending, is_sorted_set, join_texts, split_text, texts};
use crate::text_map::TextMap;
use vstd::prelude::*;

verus! {

/// Seven days.
pub const MAX_TIMEOUT_NS: u64 = 604_800_000_000_000;

/// One second.
pub const MIN_TIMEOUT_NS: u64 = 1_000_000_000;

pub open spec fn is_letter(c: char) -> bool {
    ('A' <= c && c <= 'Z') || ('a' <= c && c <= 'z')
}

pub open spec fn is_digit(c: char) -> bool {
    '0' <= c && c <= '9'
}

fn letter(c: char) -> (r: bool)
    ensures
        r == is_letter(c),
{
    ('A' <= c && c <= 'Z') || ('a' <= c && c <= 'z')
}

pub(crate) fn digit_char(c: char) -> (r: bool)
    ensures
        r == is_digit(c),
{
    '0' <= c && c <= '9'
}

/// The characters that a name may hold behind its first.
pub open spec fn is_name_char(c: char) -> bool {
    is_letter(c) || is_digit(c) || c == '.' || c == '_' || c == '-'
}

/// A name has 1 to 64 characters and begins with a letter or a digit.
pub open spec fn is_name(name: Seq<char>) -> bool {
    &&& 1 <= name.len() <= 64
    &&& is_letter(name[0]) || is_digit(name[0])
    &&& forall|i: int| 0 < i < name.len() ==> is_name_char(#[trigger] name[i])
}

pub open spec fn name_complaint() -> Seq<char> {
    "name must match [A-Za-z0-9][A-Za-z0-9._-]{0,63}"@
}

/// Checks the form of a name.
pub fn validate_name(name: &str) -> (r: Result<(), String>)
    ensures
        r is Ok <==> is_name(name@),
        r matches Err(message) ==> message@ == name_complaint(),
{
    let chars = chars_of(name);
    let mut fine = chars.len() >= 1 && chars.len() <= 64 && (letter(chars[0]) || digit_char(
        chars[0],
    ));
    let mut i: usize = 1;
    while fine && i < chars.len()
        invariant
            chars@ == name@,
            i >= 1,
            fine ==> 1 <= name@.len() <= 64 && (is_letter(name@[0]) || is_digit(name@[0])),
            fine ==> forall|j: int| 0 < j < i && j < name@.len() ==> is_name_char(#[trigger] name@[j]),
            !fine ==> !is_name(name@),
        decreases chars@.len() - i,
    {
        let c = chars[i];
        if !(letter(c) || digit_char(c) || c == '.' || c == '_' || c == '-') {
            assert(!is_name_char(name@[i as int]));
            fine = false;
        }
        i += 1;
    }
    if fine {
        Ok(())
    } else {
        Err("name must match [A-Za-z0-9][A-Za-z0-9._-]{0,63}".to_owned())
    }
}

/// A letter or underscore, followed by letters, digits and underscores.
pub open spec fn is_environment_name(name: Seq<char>) -> bool {
    &&& name.len() >= 1
    &&& name[0] == '_' || is_letter(name[0])
    &&& forall|i: int|
        0 < i < name.len() ==> (#[trigger] name[i] == '_' || is_letter(name[i]) || is_digit(name[i]))
}

/// Checks the form of an environment variable's name.
pub fn valid_environment_name(name: &str) -> (r: bool)
    ensures
        r == is_environment_name(name@),
{
    let chars = chars_of(name);
    if chars.len() == 0 || !(chars[0] == '_' || letter(chars[0])) {
        return false;
    }
    let mut i: usize = 1;
    while i < chars.len()
        invariant
            1 <= i <= chars@.len(),
            chars@ == name@,
            name@[0] == '_' || is_letter(name@[0]),
            forall|j: int|
                0 < j < i ==> (#[trigger] name@[j] == '_' || is_letter(name@[j]) || is_digit(name@[j])),
        decreases chars@.len() - i,
    {
        let c = chars[i];
        if !(c == '_' || letter(c) || digit_char(c)) {
            return false;
        }
        i += 1;
    }
    true
}

/// The digits that a text begins with.
pub open spec fn leading_digits(text: Seq<char>) -> nat
    decreases text.len(),
{
    if text.len() > 0 && is_digit(text[0]) {
        1 + leading_digits(text.drop_first())
    } else {
        0
    }
}

/// The number that decimal digits denote.
pub open spec fn digits_value(digits: Seq<char>) -> nat
    decreases digits.len(),
{
    if digits.len() == 0 {
        0
    } else {
        digits_value(digits.drop_last()) * 10 + (digits.last() as nat - '0' as nat) as nat
    }
}

/// The nanoseconds that a unit stands for.
pub open spec fn unit_nanos(unit: Seq<char>) -> Option<nat> {
    if unit == "s"@ {
        Some(1_000_000_000)
    } else if unit == "m"@ {
        Some(60_000_000_000)
    } else if unit == "h"@ {
        Some(3_600_000_000_000)
    } else if unit == "d"@ {
        Some(86_400_000_000_000)
    } else {
        None
    }
}

/// The nanoseconds that a duration stands for: digits and a unit.
pub open spec fn duration_nanos(value: Seq<char>) -> Result<nat, Seq<char>> {
    let split = leading_digits(value) as int;
    let number = digits_value(value.take(split));
    if split == value.len() {
        Err("duration needs a unit (s, m, h, or d)"@)
    } else if split == 0 || number > u64::MAX {
        Err("duration value is invalid"@)
    } else {
        match unit_nanos(value.skip(split)) {
            None => Err("duration unit must be s, m, h, or d"@),
            Some(nanos) => if number * nanos > u64::MAX {
                Err("duration overflows"@)
            } else {
                Ok(number * nanos)
            },
        }
    }
}

proof fn lemma_leading_digits(text: Seq<char>, n: int)
    requires
        0 <= n <= text.len(),
        forall|i: int| 0 <= i < n ==> is_digit(#[trigger] text[i]),
        n < text.len() ==> !is_digit(text[n]),
    ensures
        leading_digits(text) == n,
    decreases n,
{
    if n > 0 {
        let rest = text.drop_first();
        assert forall|i: int| 0 <= i < n - 1 implies is_digit(#[trigger] rest[i]) by {
            assert(rest[i] == text[i + 1]);
        }
        assert(n < text.len() ==> rest[n - 1] == text[n]);
        assert(is_digit(text[0]));
        lemma_leading_digits(rest, n - 1);
    }
}

/// More digits never make a number smaller.
proof fn lemma_digits_grow(digits: Seq<char>, n: int)
    requires
        0 <= n <= digits.len(),
        forall|i: int| 0 <= i < digits.len() ==> is_digit(#[trigger] digits[i]),
    ensures
        digits_value(digits.take(n)) <= digits_value(digits),
    decreases digits.len() - n,
{
    if n == digits.len() {
        assert(digits.take(n) =~= digits);
    } else {
        lemma_digits_grow(digits, n + 1);
        assert(digits.take(n + 1).drop_last() =~= digits.take(n));
        assert(is_digit(digits[n]));
    }
}

/// Reads decimal digits; `None` if there are none, or if the number is too large.
pub(crate) fn read_digits(chars: &Vec<char>, count: usize) -> (r: Option<u64>)
    requires
        count <= chars@.len(),
        forall|i: int| 0 <= i < count ==> is_digit(#[trigger] chars@[i]),
    ensures
        r is Some <==> count > 0 && digits_value(chars@.take(count as int)) <= u64::MAX,
        r matches Some(number) ==> number == digits_value(chars@.take(count as int)),
{
    if count == 0 {
        return None;
    }
    let ghost all = chars@.take(count as int);
    let mut number: u64 = 0;
    let mut i: usize = 0;
    while i < count
        invariant
            i <= count <= chars@.len(),
            all == chars@.take(count as int),
            forall|j: int| 0 <= j < all.len() ==> is_digit(#[trigger] all[j]),
            number == digits_value(all.take(i as int)),
        decreases count - i,
    {
        proof {
            lemma_digits_grow(all, i + 1);
            assert(all.take(i + 1).drop_last() =~= all.take(i as int));
            assert(all.take(i + 1).last() == chars@[i as int]);
            assert(is_digit(all[i as int]));
        }
        let step: u64 = (chars[i] as u32 - '0' as u32) as u64;
        match number.checked_mul(10) {
            Some(shifted) => match shifted.checked_add(step) {
                Some(next) => {
                    number = next;
                },
                None => {
                    return None;
                },
            },
            None => {
                return None;
            },
        }
        i += 1;
    }
    assert(all.take(i as int) =~= all);
    Some(number)
}

/// Reads a duration such as `90s`, `5m`, `2h` or `1d`.
pub fn parse_duration(value: &str) -> (r: Result<u64, String>)
    ensures
        match r {
            Ok(nanos) => duration_nanos(value@) == Ok::<nat, Seq<char>>(nanos as nat),
            Err(message) => duration_nanos(value@) == Err::<nat, Seq<char>>(message@),
        },
{
    let chars = chars_of(value);
    let mut split: usize = 0;
    while split < chars.len() && digit_char(chars[split])
        invariant
            split <= chars@.len(),
            forall|i: int| 0 <= i < split ==> is_digit(#[trigger] chars@[i]),
        decreases chars@.len() - split,
    {
        split += 1;
    }
    proof {
        lemma_leading_digits(value@, split as int);
    }
    if split == chars.len() {
        return Err("duration needs a unit (s, m, h, or d)".to_owned());
    }
    let number = match read_digits(&chars, split) {
        Some(number) => number,
        None => {
            return Err("duration value is invalid".to_owned());
        },
    };
    let unit = slice_text(value, split, chars.len());
    assert(unit@ =~= value@.skip(split as int));
    let multiplier: u64 = if str_equal(unit.as_str(), "s") {
        1_000_000_000
    } else if str_equal(unit.as_str(), "m") {
        60_000_000_000
    } else if str_equal(unit.as_str(), "h") {
        3_600_000_000_000
    } else if str_equal(unit.as_str(), "d") {
        86_400_000_000_000
    } else {
        return Err("duration unit must be s, m, h, or d".to_owned());
    };
    assert(unit_nanos(unit@) == Some(multiplier as nat));
    match number.checked_mul(multiplier) {
        Some(nanos) => Ok(nanos),
        None => Err("duration overflows".to_owned()),
    }
}

/// The parts of a relative path that name something.
pub open spec fn path_parts(path: Seq<char>) -> Seq<Seq<char>> {
    split_text(path, '/').filter(|part: Seq<char>| part.len() > 0 && part != "."@)
}

/// Why a path is refused: it is absolute, or leads upwards.
pub open spec fn path_fault(path: Seq<char>) -> Option<ConfigFault> {
    if path.len() > 0 && path[0] == '/' {
        Some(ConfigFault::Invalid("path `"@ + path + "` must be relative"@))
    } else if path_parts(path).contains(".."@) {
        Some(ConfigFault::Invalid("path `"@ + path + "` contains parent or platform components"@))
    } else {
        None
    }
}

/// The plain form of a path: its parts with single slashes between, or a dot.
pub open spec fn plain_path(path: Seq<char>) -> Seq<char> {
    if path_parts(path).len() == 0 {
        "."@
    } else {
        join_texts(path_parts(path), "/"@)
    }
}

/// Brings a relative path into its plain form.
pub fn normalize_relative(value: &str) -> (r: Result<String, ConfigError>)
    ensures
        r is Ok <==> path_fault(value@) is None,
        r matches Ok(path) ==> path@ == plain_path(value@),
        r matches Err(error) ==> Some(error@) == path_fault(value@),
{
    let chars = chars_of(value);
    if chars.len() > 0 && chars[0] == '/' {
        return Err(ConfigError::Invalid(concat3("path `", value, "` must be relative")));
    }
    let pieces = split_str(value, '/');
    let ghost all = split_text(value@, '/');
    let ghost named = |part: Seq<char>| part.len() > 0 && part != "."@;
    let mut parts: Vec<String> = Vec::new();
    let mut upwards = false;
    let mut i: usize = 0;
    proof {
        lemma_filter_ends(all, named);
        assert(texts(parts@) =~= Seq::<Seq<char>>::empty());
    }
    while i < pieces.len()
        invariant
            i <= pieces@.len(),
            all == texts(pieces@),
            named == (|part: Seq<char>| part.len() > 0 && part != "."@),
            texts(parts@) == all.take(i as int).filter(named),
            upwards == texts(parts@).contains(".."@),
        decreases pieces@.len() - i,
    {
        let ghost before = texts(parts@);
        proof {
            lemma_filter_step(all, named, i as int);
            assert(all[i as int] == pieces@[i as int]@);
        }
        if !pieces[i].as_str().is_empty() && !str_equal(pieces[i].as_str(), ".") {
            let up = str_equal(pieces[i].as_str(), "..");
            if up {
                upwards = true;
            }
            parts.push(pieces[i].clone());
            proof {
                assert(texts(parts@) =~= before.push(pieces@[i as int]@));
                lemma_push_contains(before, pieces@[i as int]@, ".."@);
            }
        }
        i += 1;
    }
    proof {
        lemma_filter_ends(all, named);
    }
    if upwards {
        return Err(
            ConfigError::Invalid(
                concat3("path `", value, "` contains parent or platform components"),
            ),
        );
    }
    if parts.is_empty() {
        Ok(".".to_owned())
    } else {
        Ok(join_strings(&parts, "/"))
    }
}

proof fn lemma_push_contains(items: Seq<Seq<char>>, item: Seq<char>, wanted: Seq<char>)
    ensures
        items.push(item).contains(wanted) <==> items.contains(wanted) || item == wanted,
{
    let all = items.push(item);
    if all.contains(wanted) {
        let i = choose|i: int| 0 <= i < all.len() && all[i] == wanted;
        if i < items.len() {
            assert(items[i] == wanted);
        }
    }
    if items.contains(wanted) {
        let i = choose|i: int| 0 <= i < items.len() && items[i] == wanted;
        assert(all[i] == wanted);
    }
    if item == wanted {
        assert(all[items.len() as int] == wanted);
    }
}

/// Patterns are compiled so that wildcards stop at slashes and backslashes mean themselves.
pub open spec fn pattern_rule(pattern: Seq<char>) -> GlobRule {
    rule_of(pattern, true, false)
}

/// The rules of several patterns.
pub open spec fn pattern_rules(patterns: Seq<Seq<char>>) -> Seq<GlobRule> {
    patterns.map_values(|pattern: Seq<char>| pattern_rule(pattern))
}

/// The pattern leaves the repository, or is not separated by slashes.
pub open spec fn pattern_escapes(pattern: Seq<char>) -> bool {
    ||| pattern.len() > 0 && pattern[0] == '/'
    ||| split_text(pattern, '/').contains(".."@)
    ||| pattern.contains('\\')
}

/// Why a pattern is refused.
pub open spec fn pattern_fault(pattern: Seq<char>) -> Option<ConfigFault> {
    if pattern_escapes(pattern) {
        Some(
            ConfigFault::InvalidMatcher {
                pattern,
                message: "patterns must be repository-relative `/`-separated paths"@,
            },
        )
    } else {
        match glob_fault(pattern_rule(pattern)) {
            Some(message) => Some(ConfigFault::InvalidMatcher { pattern, message }),
            None => None,
        }
    }
}

/// Why the first of several patterns that is refused is refused.
pub open spec fn patterns_fault(patterns: Seq<Seq<char>>) -> Option<ConfigFault>
    decreases patterns.len(),
{
    if patterns.len() == 0 {
        None
    } else {
        match pattern_fault(patterns[0]) {
            Some(fault) => Some(fault),
            None => patterns_fault(patterns.drop_first()),
        }
    }
}

/// Compiles a pattern.
fn compile_pattern(pattern: &str) -> (r: Result<globset::Glob, ConfigError>)
    ensures
        r is Ok <==> pattern_fault(pattern@) is None,
        r matches Ok(glob) ==> glob_rule(glob) == pattern_rule(pattern@),
        r matches Err(error) ==> Some(error@) == pattern_fault(pattern@),
{
    let chars = chars_of(pattern);
    let pieces = split_str(pattern, '/');
    if (chars.len() > 0 && chars[0] == '/') || contains_text(&pieces, "..") || contains_char(
        pattern,
        '\\',
    ) {
        return Err(
            ConfigError::InvalidMatcher {
                pattern: pattern.to_owned(),
                message: "patterns must be repository-relative `/`-separated paths".to_owned(),
            },
        );
    }
    match compile_glob(pattern, true, false) {
        Ok(glob) => Ok(glob),
        Err(message) => Err(
            ConfigError::InvalidMatcher { pattern: pattern.to_owned(), message },
        ),
    }
}

/// Checks a pattern.
pub fn validate_pattern(pattern: &str) -> (r: Result<(), ConfigError>)
    ensures
        r is Ok <==> pattern_fault(pattern@) is None,
        r matches Err(error) ==> Some(error@) == pattern_fault(pattern@),
{
    match compile_pattern(pattern) {
        Ok(_) => Ok(()),
        Err(error) => Err(error),
    }
}

proof fn lemma_patterns_fault_step(patterns: Seq<Seq<char>>, i: int)
    requires
        0 <= i < patterns.len(),
    ensures
        patterns_fault(patterns.skip(i)) == match pattern_fault(patterns[i]) {
            Some(fault) => Some(fault),
            None => patterns_fault(patterns.skip(i + 1)),
        },
{
    assert(patterns.skip(i).drop_first() =~= patterns.skip(i + 1));
}

/// Checks several patterns, and reports the first that is refused.
pub fn validate_patterns(patterns: &Vec<String>) -> (r: Result<(), ConfigError>)
    ensures
        r is Ok <==> patterns_fault(texts(patterns@)) is None,
        r matches Err(error) ==> Some(error@) == patterns_fault(texts(patterns@)),
{
    let ghost all = texts(patterns@);
    let mut i: usize = 0;
    assert(all.skip(0) =~= all);
    while i < patterns.len()
        invariant
            i <= patterns@.len(),
            all == texts(patterns@),
            patterns_fault(all.skip(i as int)) == patterns_fault(all),
        decreases patterns@.len() - i,
    {
        proof {
            lemma_patterns_fault_step(all, i as int);
            assert(all[i as int] == patterns@[i as int]@);
        }
        match validate_pattern(patterns[i].as_str()) {
            Ok(()) => {},
            Err(error) => {
                return Err(error);
            },
        }
        i += 1;
    }
    assert(all.skip(i as int).len() == 0);
    Ok(())
}

/// Why several patterns cannot be matched together.
pub open spec fn matcher_fault(patterns: Seq<Seq<char>>) -> Option<ConfigFault> {
    match patterns_fault(patterns) {
        Some(fault) => Some(fault),
        None => match glob_set_fault(pattern_rules(patterns)) {
            Some(message) => Some(ConfigFault::Invalid(message)),
            None => None,
        },
    }
}

/// Compiles several patterns into a set that is matched at once.
fn build_matcher(patterns: &Vec<String>) -> (r: Result<globset::GlobSet, ConfigError>)
    ensures
        r is Ok <==> matcher_fault(texts(patterns@)) is None,
        r matches Ok(globs) ==> set_rules(globs) == pattern_rules(texts(patterns@)),
        r matches Err(error) ==> Some(error@) == matcher_fault(texts(patterns@)),
{
    let ghost all = texts(patterns@);
    let mut builder = new_glob_builder();
    let mut i: usize = 0;
    assert(all.skip(0) =~= all);
    while i < patterns.len()
        invariant
            i <= patterns@.len(),
            all == texts(patterns@),
            patterns_fault(all.skip(i as int)) == patterns_fault(all),
            builder_rules(builder) == pattern_rules(all.take(i as int)),
        decreases patterns@.len() - i,
    {
        proof {
            lemma_patterns_fault_step(all, i as int);
            assert(all[i as int] == patterns@[i as int]@);
        }
        match compile_pattern(patterns[i].as_str()) {
            Ok(glob) => {
                add_glob(&mut builder, glob);
            },
            Err(error) => {
                return Err(error);
            },
        }
        i += 1;
        assert(builder_rules(builder) =~= pattern_rules(all.take(i as int)));
    }
    assert(all.skip(i as int).len() == 0);
    assert(all.take(i as int) =~= all);
    match build_glob_set(&builder) {
        Ok(globs) => Ok(globs),
        Err(message) => Err(ConfigError::Invalid(message)),
    }
}

/// Some of the paths is matched by some of the patterns.
pub open spec fn any_path_matches(patterns: Seq<Seq<char>>, paths: Seq<Seq<char>>) -> bool {
    exists|p: int, i: int|
        0 <= p < paths.len() && 0 <= i < patterns.len() && #[trigger] glob_matches(
            pattern_rule(patterns[i]),
            paths[p],
        )
}

/// Whether a set matches any of the paths.
fn matches_any(globs: &globset::GlobSet, patterns: &Vec<String>, paths: &[String]) -> (r: bool)
    requires
        set_rules(*globs) == pattern_rules(texts(patterns@)),
    ensures
        r == any_path_matches(texts(patterns@), texts(paths@)),
{
    let ghost all = texts(patterns@);
    let ghost rules = pattern_rules(all);
    let mut p: usize = 0;
    while p < paths.len()
        invariant
            p <= paths@.len(),
            all == texts(patterns@),
            rules == pattern_rules(all),
            set_rules(*globs) == rules,
            forall|q: int, i: int|
                0 <= q < p && 0 <= i < all.len() ==> !(#[trigger] glob_matches(
                    pattern_rule(all[i]),
                    texts(paths@)[q],
                )),
        decreases paths@.len() - p,
    {
        assert(texts(paths@)[p as int] == paths@[p as int]@);
        if matches_glob_set(globs, paths[p].as_str()) {
            proof {
                let i = choose|i: int|
                    0 <= i < rules.len() && #[trigger] glob_matches(rules[i], paths@[p as int]@);
                assert(rules[i] == pattern_rule(all[i]));
                assert(glob_matches(pattern_rule(all[i]), texts(paths@)[p as int]));
            }
            return true;
        }
        assert forall|i: int| 0 <= i < all.len() implies !(#[trigger] glob_matches(
            pattern_rule(all[i]),
            texts(paths@)[p as int],
        )) by {
            assert(rules[i] == pattern_rule(all[i]));
            assert(!glob_matches(rules[i], paths@[p as int]@));
        }
        p += 1;
    }
    false
}

/// Whether a step with these path filters applies to a change of these paths: one
/// of them is included, or nothing need be, and none is excluded.
pub open spec fn filters_select(
    includes: Seq<Seq<char>>,
    excludes: Seq<Seq<char>>,
    paths: Seq<Seq<char>>,
) -> bool {
    &&& includes.len() == 0 || any_path_matches(includes, paths)
    &&& !any_path_matches(excludes, paths)
}

/// Why path filters cannot be applied.
pub open spec fn filters_fault(includes: Seq<Seq<char>>, excludes: Seq<Seq<char>>) -> Option<
    ConfigFault,
> {
    if includes.len() == 0 && excludes.len() == 0 {
        None
    } else {
        match matcher_fault(includes) {
            Some(fault) => Some(fault),
            None => matcher_fault(excludes),
        }
    }
}

impl EffectiveStep {
    /// Whether the step applies to a change of the given paths.
    pub fn is_applicable(&self, changed_paths: &[String]) -> (r: Result<bool, ConfigError>)
        ensures
            r is Ok <==> filters_fault(texts(self.includes@), texts(self.excludes@)) is None,
            r matches Ok(applies) ==> applies == filters_select(
                texts(self.includes@),
                texts(self.excludes@),
                texts(changed_paths@),
            ),
            r matches Err(error) ==> Some(error@) == filters_fault(
                texts(self.includes@),
                texts(self.excludes@),
            ),
    {
        if self.includes.is_empty() && self.excludes.is_empty() {
            return Ok(true);
        }
        let includes = match build_matcher(&self.includes) {
            Ok(globs) => globs,
            Err(error) => {
                return Err(error);
            },
        };
        let excludes = match build_matcher(&self.excludes) {
            Ok(globs) => globs,
            Err(error) => {
                return Err(error);
            },
        };
        let selected = self.includes.is_empty() || matches_any(
            &includes,
            &self.includes,
            changed_paths,
        );
        Ok(selected && !matches_any(&excludes, &self.excludes, changed_paths))
    }
}

pub open spec fn duplicates_complaint() -> ConfigFault {
    ConfigFault::Invalid("set-like arrays may not contain duplicates"@)
}

/// Sorts texts that stand for a set; duplicates are refused.
pub fn sorted_unique(values: &Vec<String>) -> (r: Result<Vec<String>, ConfigError>)
    ensures
        r is Ok <==> texts(values@).no_duplicates(),
        r matches Ok(sorted) ==> is_sorted_set(texts(values@), texts(sorted@)),
        r matches Err(error) ==> error@ == duplicates_complaint(),
{
    let ghost all = texts(values@);
    let mut sorted: Vec<String> = Vec::new();
    let mut i: usize = 0;
    proof {
        assert(texts(sorted@) =~= Seq::<Seq<char>>::empty());
        assert(all.take(0).to_set() =~= texts(sorted@).to_set());
    }
    while i < values.len()
        invariant
            i <= values@.len(),
            all == texts(values@),
            ascending(texts(sorted@)),
            texts(sorted@).to_set() == all.take(i as int).to_set(),
            all.take(i as int).no_duplicates(),
        decreases values@.len() - i,
    {
        let ghost value = values@[i as int]@;
        assert(all[i as int] == value);
        if contains_text(&sorted, values[i].as_str()) {
            proof {
                assert(texts(sorted@).to_set().contains(value));
                assert(all.take(i as int).contains(value));
                let j = choose|j: int| 0 <= j < all.take(i as int).len() && all.take(i as int)[j] == value;
                assert(all[j] == all[i as int]);
            }
            return Err(
                ConfigError::Invalid("set-like arrays may not contain duplicates".to_owned()),
            );
        }
        proof {
            assert(!texts(sorted@).to_set().contains(value));
            assert(!all.take(i as int).contains(value)) by {
                assert(!all.take(i as int).to_set().contains(value));
            }
            let next = all.take(i + 1);
            assert(next =~= all.take(i as int).push(value));
            assert(next.to_set() =~= all.take(i as int).to_set().insert(value)) by {
                assert forall|t: Seq<char>| next.contains(t) <==> all.take(i as int).contains(t) || t
                    == value by {
                    lemma_push_contains(all.take(i as int), value, t);
                }
            }
        }
        insert_text(&mut sorted, values[i].as_str());
        i += 1;
    }
    assert(all.take(i as int) =~= all);
    Ok(sorted)
}

/// Why names that stand for a set are refused.
pub open spec fn names_fault(values: Seq<Seq<char>>) -> Option<ConfigFault> {
    if exists|i: int| 0 <= i < values.len() && !is_name(#[trigger] values[i]) {
        Some(ConfigFault::Invalid(name_complaint()))
    } else if !values.no_duplicates() {
        Some(duplicates_complaint())
    } else {
        None
    }
}

/// Sorts names that stand for a set.
pub fn sorted_names(values: &Vec<String>) -> (r: Result<Vec<String>, ConfigError>)
    ensures
        r is Ok <==> names_fault(texts(values@)) is None,
        r matches Ok(sorted) ==> is_sorted_set(texts(values@), texts(sorted@)),
        r matches Err(error) ==> Some(error@) == names_fault(texts(values@)),
{
    let ghost all = texts(values@);
    let mut i: usize = 0;
    while i < values.len()
        invariant
            i <= values@.len(),
            all == texts(values@),
            forall|j: int| 0 <= j < i ==> is_name(#[trigger] all[j]),
        decreases values@.len() - i,
    {
        assert(all[i as int] == values@[i as int]@);
        match validate_name(values[i].as_str()) {
            Ok(()) => {},
            Err(message) => {
                assert(!is_name(all[i as int]));
                return Err(ConfigError::Invalid(message));
            },
        }
        i += 1;
    }
    sorted_unique(values)
}

/// Why the variable at position `k` of additions and removals is refused.
pub open spec fn variable_fault(
    step: Seq<char>,
    added: Seq<Seq<char>>,
    removed: Seq<Seq<char>>,
    k: int,
) -> Option<ConfigFault> {
    let key = (added + removed)[k];
    if !is_environment_name(key) {
        Some(
            ConfigFault::InvalidStep {
                step,
                message: "invalid environment variable name `"@ + key + "`"@,
            },
        )
    } else if added.contains(key) && removed.contains(key) {
        Some(
            ConfigFault::InvalidStep {
                step,
                message: "environment variable `"@ + key + "` is both added and removed"@,
            },
        )
    } else if (added + removed).take(k).contains(key) {
        Some(
            ConfigFault::InvalidStep {
                step,
                message: "environment variable `"@ + key + "` is removed more than once"@,
            },
        )
    } else {
        None
    }
}

/// Why the first variable from position `k` on that is refused is refused.
pub open spec fn variables_fault(
    step: Seq<char>,
    added: Seq<Seq<char>>,
    removed: Seq<Seq<char>>,
    k: int,
) -> Option<ConfigFault>
    decreases added.len() + removed.len() - k,
{
    if k >= added.len() + removed.len() {
        None
    } else {
        match variable_fault(step, added, removed, k) {
            Some(fault) => Some(fault),
            None => variables_fault(step, added, removed, k + 1),
        }
    }
}

/// Some value holds a NUL character.
pub open spec fn some_value_has_nul(additions: Map<Seq<char>, String>) -> bool {
    exists|key: Seq<char>| #[trigger]
        additions.dom().contains(key) && additions[key]@.contains('\0')
}

/// Why the environment of a step is refused.
pub open spec fn environment_fault(
    step: Seq<char>,
    additions: TextMap<String>,
    removals: Seq<Seq<char>>,
) -> Option<ConfigFault> {
    match variables_fault(step, additions.keys(), removals, 0) {
        Some(fault) => Some(fault),
        None => if some_value_has_nul(additions@) {
            Some(
                ConfigFault::InvalidStep { step, message: "environment values must be NUL-free"@ },
            )
        } else {
            None
        },
    }
}

fn environment_error(step: &str, before: &str, key: &str, after: &str) -> (r: ConfigError)
    ensures
        r@ == (ConfigFault::InvalidStep { step: step@, message: before@ + key@ + after@ }),
{
    ConfigError::InvalidStep { step: step.to_owned(), message: concat3(before, key, after) }
}

/// Checks the environment of a step: what it adds and what it removes.
pub fn validate_environment(
    name: &str,
    additions: &TextMap<String>,
    removals: &Vec<String>,
) -> (r: Result<(), ConfigError>)
    ensures
        r is Ok <==> environment_fault(name@, *additions, texts(removals@)) is None,
        r matches Err(error) ==> Some(error@) == environment_fault(
            name@,
            *additions,
            texts(removals@),
        ),
{
    let ghost added = additions.keys();
    let ghost removed = texts(removals@);
    let ghost chain = added + removed;
    let count = additions.len();
    let mut seen: Vec<String> = Vec::new();
    let mut k: usize = 0;
    let mut in_removals: usize = 0;
    proof {
        assert(texts(seen@) =~= chain.take(0));
    }
    while k < count || in_removals < removals.len()
        invariant
            count == added.len(),
            added == additions.keys(),
            additions@.dom() == added.to_set(),
            removed == texts(removals@),
            chain == added + removed,
            k <= count,
            in_removals <= removals@.len(),
            in_removals > 0 ==> k == count,
            texts(seen@) == chain.take(k + in_removals),
            variables_fault(name@, added, removed, k + in_removals) == variables_fault(
                name@,
                added,
                removed,
                0,
            ),
        decreases count - k + removals@.len() - in_removals,
    {
        let ghost at = k + in_removals;
        let key: String = if k < count {
            additions.key_at(k).clone()
        } else {
            removals[in_removals].clone()
        };
        proof {
            assert(chain[at] == key@);
        }
        if !valid_environment_name(key.as_str()) {
            return Err(
                environment_error(name, "invalid environment variable name `", key.as_str(), "`"),
            );
        }
        let is_added = additions.get(key.as_str()).is_some();
        proof {
            assert(is_added == added.contains(key@)) by {
                assert(additions@.dom().contains(key@) <==> added.to_set().contains(key@));
            }
        }
        if is_added && contains_text(removals, key.as_str()) {
            return Err(
                environment_error(
                    name,
                    "environment variable `",
                    key.as_str(),
                    "` is both added and removed",
                ),
            );
        }
        if contains_text(&seen, key.as_str()) {
            return Err(
                environment_error(
                    name,
                    "environment variable `",
                    key.as_str(),
                    "` is removed more than once",
                ),
            );
        }
        let ghost before = texts(seen@);
        seen.push(key);
        if k < count {
            k += 1;
        } else {
            in_removals += 1;
        }
        proof {
            assert(texts(seen@) =~= before.push(key@));
            assert(chain.take(at + 1) =~= chain.take(at).push(chain[at]));
        }
    }
    let mut v: usize = 0;
    while v < count
        invariant
            v <= count,
            count == added.len(),
            added == additions.keys(),
            additions@.dom() == added.to_set(),
            removed == texts(removals@),
            variables_fault(name@, added, removed, 0) is None,
            forall|j: int| 0 <= j < v ==> !additions@[#[trigger] added[j]]@.contains('\0'),
        decreases count - v,
    {
        if contains_char(additions.value_at(v).as_str(), '\0') {
            assert(additions@.dom().contains(added[v as int]));
            return Err(
                ConfigError::InvalidStep {
                    step: name.to_owned(),
                    message: "environment values must be NUL-free".to_owned(),
                },
            );
        }
        v += 1;
    }
    proof {
        assert forall|key: Seq<char>| #[trigger] additions@.dom().contains(key) implies !additions@[key]@.contains(
        '\0') by {
            assert(added.contains(key));
            let j = choose|j: int| 0 <= j < added.len() && added[j] == key;
            assert(!additions@[added[j]]@.contains('\0'));
        }
    }
    Ok(())
}

/// Why the pools themselves are refused.
pub open spec fn pools_fault(resources: EffectiveResources) -> Option<ConfigFault> {
    if !(1 <= resources.max_buildsets <= 64) {
        Some(ConfigFault::Invalid("max_buildsets must be between 1 and 64"@))
    } else if !(1 <= resources.repository_concurrency <= resources.max_buildsets) {
        Some(
            ConfigFault::Invalid("repository_concurrency must be between 1 and max_buildsets"@),
        )
    } else if !(1 <= resources.scheduler_weight <= 100) {
        Some(ConfigFault::Invalid("scheduler_weight must be between 1 and 100"@))
    } else if !(resources.volume_warning_bytes > resources.volume_critical_bytes
        && resources.volume_critical_bytes >= 0x4000_0000 && 0 < resources.volume_emergency_bytes
        && resources.volume_emergency_bytes <= resources.volume_critical_bytes) {
        Some(
            ConfigFault::Invalid(
                "volume thresholds require warning > critical >= 1 GiB and 0 < emergency <= critical"@,
            ),
        )
    } else {
        None
    }
}

/// Why what a step reserves is refused.
pub open spec fn reservation_fault(
    step: EffectiveStep,
    resources: EffectiveResources,
) -> Option<ConfigFault> {
    if step.rss_limit_bytes matches Some(limit) && limit < 0x10_0000 {
        Some(
            ConfigFault::InvalidStep {
                step: step.name@,
                message: "rss_limit_bytes must be at least 1 MiB when configured"@,
            },
        )
    } else if step.cpu_tokens > resources.cpu_tokens {
        Some(
            ConfigFault::InvalidStep {
                step: step.name@,
                message: "CPU reservation requires and must fit the configured CPU pool"@,
            },
        )
    } else if step.memory_bytes > resources.memory_bytes {
        Some(
            ConfigFault::InvalidStep {
                step: step.name@,
                message: "memory reservation requires and must fit the configured memory pool"@,
            },
        )
    } else {
        None
    }
}

/// Why the first step from position `k` on whose reservation is refused is refused.
pub open spec fn reservations_fault(
    steps: Seq<EffectiveStep>,
    resources: EffectiveResources,
    k: int,
) -> Option<ConfigFault>
    decreases steps.len() - k,
{
    if k >= steps.len() {
        None
    } else {
        match reservation_fault(steps[k], resources) {
            Some(fault) => Some(fault),
            None => reservations_fault(steps, resources, k + 1),
        }
    }
}

/// Why resources are refused: the pools themselves, or a step that does not fit them.
pub open spec fn resources_fault(
    steps: Seq<EffectiveStep>,
    resources: EffectiveResources,
) -> Option<ConfigFault> {
    match pools_fault(resources) {
        Some(fault) => Some(fault),
        None => reservations_fault(steps, resources, 0),
    }
}

fn step_error(step: &EffectiveStep, message: &str) -> (r: ConfigError)
    ensures
        r@ == (ConfigFault::InvalidStep { step: step.name@, message: message@ }),
{
    ConfigError::InvalidStep { step: step.name.clone(), message: message.to_owned() }
}

/// Checks the pools, and that every step fits them.
pub fn validate_resources(steps: &Vec<EffectiveStep>, resources: &EffectiveResources) -> (r: Result<
    (),
    ConfigError,
>)
    ensures
        r is Ok <==> resources_fault(steps@, *resources) is None,
        r matches Err(error) ==> Some(error@) == resources_fault(steps@, *resources),
{
    if resources.max_buildsets < 1 || resources.max_buildsets > 64 {
        return Err(ConfigError::Invalid("max_buildsets must be between 1 and 64".to_owned()));
    }
    if resources.repository_concurrency == 0 || resources.repository_concurrency
        > resources.max_buildsets {
        return Err(
            ConfigError::Invalid(
                "repository_concurrency must be between 1 and max_buildsets".to_owned(),
            ),
        );
    }
    if resources.scheduler_weight < 1 || resources.scheduler_weight > 100 {
        return Err(ConfigError::Invalid("scheduler_weight must be between 1 and 100".to_owned()));
    }
    if resources.volume_warning_bytes <= resources.volume_critical_bytes
        || resources.volume_critical_bytes < 0x4000_0000 || resources.volume_emergency_bytes == 0
        || resources.volume_emergency_bytes > resources.volume_critical_bytes {
        return Err(
            ConfigError::Invalid(
                "volume thresholds require warning > critical >= 1 GiB and 0 < emergency <= critical".to_owned(),
            ),
        );
    }
    let mut i: usize = 0;
    while i < steps.len()
        invariant
            i <= steps@.len(),
            pools_fault(*resources) is None,
            reservations_fault(steps@, *resources, i as int) == reservations_fault(
                steps@,
                *resources,
                0,
            ),
        decreases steps@.len() - i,
    {
        let step = &steps[i];
        let small = match step.rss_limit_bytes {
            Some(limit) => limit < 0x10_0000,
            None => false,
        };
        if small {
            return Err(
                step_error(step, "rss_limit_bytes must be at least 1 MiB when configured"),
            );
        }
        if step.cpu_tokens > 0 && (resources.cpu_tokens == 0 || step.cpu_tokens
            > resources.cpu_tokens) {
            return Err(
                step_error(step, "CPU reservation requires and must fit the configured CPU pool"),
            );
        }
        if step.memory_bytes > 0 && (resources.memory_bytes == 0 || step.memory_bytes
            > resources.memory_bytes) {
            return Err(
                step_error(
                    step,
                    "memory reservation requires and must fit the configured memory pool",
                ),
            );
        }
        i += 1;
    }
    Ok(())
}

} // verus!
