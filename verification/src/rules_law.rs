//! What variables, commands and artifacts may be called, and what a document says.

#[allow(unused_imports)]
use crate::artifact_table::{can_retain, retention_fault, ArtifactInfo, RetentionFault};
#[allow(unused_imports)]
use crate::buildset_table::{has_buildset, BuildsetRow};
#[allow(unused_imports)]
use crate::config::{artifact_fault, command_ok};
#[allow(unused_imports)]
use crate::config_model::{ArtifactFile, StepFile};
#[allow(unused_imports)]
use crate::config_rules::{
    is_environment_name, is_name, names_fault, variable_fault, variables_fault,
};
#[allow(unused_imports)]
use crate::document::{first_text, Tree};
#[allow(unused_imports)]
use crate::git_parse::{oid_in, single_parent_in};
#[allow(unused_imports)]
use crate::git_worktree::{format_named, leads_its_like, ordered_directories, path_keys};
#[allow(unused_imports)]
use crate::ids::{QueueItemId, RepositoryId};
#[allow(unused_imports)]
use crate::intent_table::{completed_promotion, IntentInfo};
#[allow(unused_imports)]
use crate::item_table::{has_item, number_taken, parked, row_at, RowKey};
#[allow(unused_imports)]
use crate::oid::{oid_of_hex, ObjectFormat};
#[allow(unused_imports)]
use crate::paths::path_key;
#[allow(unused_imports)]
use crate::repository_ops::promotions_released;
#[allow(unused_imports)]
use crate::scan::{trimmed, words_of};
#[allow(unused_imports)]
use crate::store::fits_sqlite;
#[allow(unused_imports)]
use crate::text::{text_before, texts};
#[allow(unused_imports)]
use crate::volume_table::ReservationRow;
use vstd::prelude::*;
#[allow(unused_imports)]
use vstd::utf8::{decode_utf8, valid_utf8};

verus! {

/// The variables of a step are in order exactly if each is named like one and none is named
/// twice, neither added and removed nor removed more than once.
pub proof fn law_variables_are_named_once(
    step: Seq<char>,
    added: Seq<Seq<char>>,
    removed: Seq<Seq<char>>,
    k: int,
)
    requires
        0 <= k,
        added.no_duplicates(),
        variables_fault(step, added, removed, k) is None,
    ensures
        forall|i: int|
            k <= i < added.len() + removed.len() ==> is_environment_name(
                #[trigger] (added + removed)[i],
            ),
        forall|i: int, j: int|
            0 <= i < j < added.len() + removed.len() && k <= j ==> #[trigger] (added + removed)[i]
                != #[trigger] (added + removed)[j],
    decreases added.len() + removed.len() - k,
{
    let all = added + removed;
    if k < all.len() {
        assert(variable_fault(step, added, removed, k) is None);
        law_variables_are_named_once(step, added, removed, k + 1);
        assert forall|i: int, j: int| 0 <= i < j < all.len() && k <= j implies #[trigger] all[i]
            != #[trigger] all[j] by {
            if j == k && all[i] == all[j] {
                assert(all.take(k)[i] == all[k]);
                assert(all.take(k).contains(all[k]));
            }
        }
    }
}

/// Variables that are named properly, each once, are accepted.
pub proof fn law_proper_variables_are_accepted(
    step: Seq<char>,
    added: Seq<Seq<char>>,
    removed: Seq<Seq<char>>,
    k: int,
)
    requires
        0 <= k,
        (added + removed).no_duplicates(),
        forall|i: int|
            0 <= i < (added + removed).len() ==> is_environment_name(
                #[trigger] (added + removed)[i],
            ),
    ensures
        variables_fault(step, added, removed, k) is None,
    decreases added.len() + removed.len() - k,
{
    let all = added + removed;
    if k < all.len() {
        law_proper_variables_are_accepted(step, added, removed, k + 1);
        let key = all[k];
        if added.contains(key) && removed.contains(key) {
            let i = choose|i: int| 0 <= i < added.len() && added[i] == key;
            let j = choose|j: int| 0 <= j < removed.len() && removed[j] == key;
            assert(all[i] == all[added.len() + j]);
        }
        if all.take(k).contains(key) {
            let i = choose|i: int| 0 <= i < k && all.take(k)[i] == key;
            assert(all[i] == all[k]);
        }
    }
}

/// A variable is named with letters, digits and underscores, and not with a digit first.
pub proof fn law_variables_have_plain_names(name: Seq<char>)
    ensures
        is_environment_name(name) ==> name.len() > 0 && !name.contains('=') && !name.contains('\0')
            && !name.contains(' '),
        is_environment_name(name) ==> !('0' <= name[0] <= '9'),
        is_environment_name(seq!['_']),
        is_environment_name(name) ==> is_environment_name(name.push('_')) && is_environment_name(
            name.push('7'),
        ) && is_environment_name(name.push('A')) && is_environment_name(name.push('a')),
        is_environment_name(name) ==> !is_environment_name(name.push('-')),
{
    if is_environment_name(name) {
        let dashed = name.push('-');
        assert(dashed[name.len() as int] == '-');
    }
}

/// A step has one command: a script or arguments, not both and not neither, and neither an
/// empty one nor one that cannot be handed to a program.
pub proof fn law_steps_have_one_command(step: StepFile)
    ensures
        command_ok(step) ==> (step.run is Some) != (step.argv is Some),
        step.run is Some && step.argv is Some ==> !command_ok(step),
        step.run is None && step.argv is None ==> !command_ok(step),
        command_ok(step) && step.run is Some ==> step.run->0@.len() > 0
            && !step.run->0@.contains('\0'),
        command_ok(step) && step.argv is Some ==> step.argv->0@.len() > 0
            && step.argv->0@[0]@.len() > 0,
        step.argv is None && step.run is Some && step.run->0@.len() > 0
            && !step.run->0@.contains('\0') ==> command_ok(step),
{
    if step.argv is Some && step.argv->0@.len() > 0 {
        assert(texts(step.argv->0@)[0] == step.argv->0@[0]@);
    }
}

/// An artifact that is accepted has a name, a pattern, and at least a day to be kept.
pub proof fn law_artifacts_have_patterns(step: Seq<char>, artifact: ArtifactFile)
    ensures
        artifact_fault(step, artifact) is None ==> is_name(artifact.name@)
            && artifact.patterns@.len() > 0 && artifact.retention_days >= 1,
        !is_name(artifact.name@) || artifact.patterns@.len() == 0 || artifact.retention_days == 0
            ==> artifact_fault(step, artifact) is Some,
{
}

/// Names that stand for a set are names, and none of them comes twice; such names are
/// accepted.
pub proof fn law_sets_of_names(values: Seq<Seq<char>>)
    ensures
        names_fault(values) is None <==> values.no_duplicates() && forall|i: int|
            0 <= i < values.len() ==> is_name(#[trigger] values[i]),
{
}

/// A value is read only as what it is: a text as that text, a truth value as that one, and a
/// number only if it is whole and within bounds.
pub proof fn law_values_are_read_as_they_are(
    tree: Tree,
    text: Seq<char>,
    flag: bool,
    n: int,
    max: nat,
)
    ensures
        Tree::Text(text).as_text() == Some(text),
        tree.as_text() is Some <==> tree is Text,
        Tree::Bool(flag).as_bool() == Some(flag),
        tree.as_bool() is Some <==> tree is Bool,
        0 <= n <= max ==> Tree::Integer(n).as_number(max) == Some(n as nat),
        n < 0 || n > max ==> Tree::Integer(n).as_number(max) is None,
        !(tree is Integer) ==> tree.as_number(max) is None,
        Tree::Text(text).as_variant() == Some(text),
        first_text(Tree::List(seq![Tree::Text(text)])) == Some(text),
        Tree::Null.as_text() is None,
{
}

/// A field that is there is read, one that is not has its default, and one that may be missing
/// is missing where nothing or null stands; a value of another kind is refused.
pub proof fn law_fields_have_defaults(
    tree: Tree,
    name: Seq<char>,
    text: Seq<char>,
    default: Option<Seq<char>>,
    flag: Option<bool>,
    number: Option<nat>,
    max: nat,
)
    ensures
        tree.field(name) is None ==> tree.text_field(name, default) == default && tree.bool_field(
            name,
            flag,
        ) == flag && tree.number_field(name, number, max) == number && tree.variant_field(
            name,
            default,
        ) == default,
        tree.field(name) == Some(Tree::Text(text)) ==> tree.text_field(name, default) == Some(text)
            && tree.bool_field(name, flag) is None && tree.number_field(name, number, max) is None
            && tree.optional_text(name) == Some(Some(text)),
        tree.field(name) == Some(Tree::Bool(true)) ==> tree.bool_field(name, flag) == Some(true),
        tree.field(name) == Some(Tree::Bool(false)) ==> tree.bool_field(name, flag) == Some(false),
        tree.field(name) is None || tree.field(name) == Some(Tree::Null) ==> tree.optional_text(
            name,
        ) == Some(None::<Seq<char>>) && tree.optional_number(name, max) == Some(None::<nat>),
        tree.field(name) is None ==> tree.texts_field(name, true) is None && tree.texts_field(
            name,
            false,
        ) == Some(Seq::<Seq<char>>::empty()),
{
}

/// The formats of objects are named apart, and no other name is one.
pub proof fn law_formats_are_named_apart(name: Seq<char>)
    ensures
        format_named("sha1"@) == Some(ObjectFormat::Sha1),
        format_named("sha256"@) == Some(ObjectFormat::Sha256),
        format_named(name) is Some ==> name == "sha1"@ || name == "sha256"@,
        ObjectFormat::Sha1.width() == 20,
        ObjectFormat::Sha256.width() == 32,
{
    reveal_strlit("sha1");
    reveal_strlit("sha256");
    assert("sha1"@.len() == 4 && "sha256"@.len() == 6);
}

/// Output that should hold one object holds it and nothing but white space; output that should
/// hold one parent holds one word.
pub proof fn law_output_holds_one_object(bytes: Seq<u8>)
    ensures
        oid_in(bytes) matches Some(oid) ==> valid_utf8(bytes) && oid_of_hex(
            trimmed(decode_utf8(bytes)),
        ) == Some(oid),
        single_parent_in(bytes) matches Some(oid) ==> words_of(decode_utf8(bytes)).len() == 1
            && oid_of_hex(words_of(decode_utf8(bytes))[0]) == Some(oid),
        valid_utf8(bytes) && words_of(decode_utf8(bytes)).len() != 1 ==> single_parent_in(
            bytes,
        ) is None,
        !valid_utf8(bytes) ==> oid_in(bytes) is None && single_parent_in(bytes) is None,
{
}

/// Artifacts can be recorded exactly if none is too large to be told and each that is taken up
/// is of a build that is known.
pub proof fn law_artifacts_belong_to_builds(
    infos: Seq<ArtifactInfo>,
    builds: Seq<BuildsetRow>,
    offered: Seq<ArtifactInfo>,
    i: int,
)
    requires
        0 <= i < offered.len(),
    ensures
        can_retain(infos, builds, offered) ==> fits_sqlite(offered[i].size),
        !fits_sqlite(offered[i].size) ==> retention_fault(infos, builds, offered, i) == Some(
            RetentionFault::TooLarge(offered[i].size),
        ) && !can_retain(infos, builds, offered),
        fits_sqlite(offered[i].size) && has_buildset(builds, offered[i].buildset_id)
            ==> retention_fault(infos, builds, offered, i) is None,
{
    assert(retention_fault(infos, builds, offered, i) is None || retention_fault(
        infos,
        builds,
        offered,
        i,
    ) is Some);
}

/// Completing the promotions of a repository releases what they had spoken for, and nothing
/// that other commands have.
pub proof fn law_completed_promotions_release_their_room(
    rows: Seq<ReservationRow>,
    infos: Seq<IntentInfo>,
    repository: RepositoryId,
    n: nat,
    i: int,
)
    requires
        0 <= i < rows.len(),
    ensures
        promotions_released(rows, infos, repository, n).len() == rows.len(),
        promotions_released(rows, infos, repository, n)[i].command_id == rows[i].command_id,
        promotions_released(rows, infos, repository, n)[i].active <==> rows[i].active && forall|
            j: int,
        |
            0 <= j < n && completed_promotion(#[trigger] infos[j], repository)
                ==> infos[j].command_id != rows[i].command_id,
    decreases n,
{
    if n > 0 {
        law_completed_promotions_release_their_room(rows, infos, repository, (n - 1) as nat, i);
        assert(completed_promotion(infos[n - 1], repository) || !completed_promotion(
            infos[n - 1],
            repository,
        ));
    }
}

/// A row that is put aside gets the number that it is given, if no other row of its repository
/// has it, and no other row changes.
pub proof fn law_rows_are_put_aside(keys: Seq<RowKey>, id: QueueItemId, number: i64, i: int)
    requires
        0 <= i < keys.len(),
        forall|a: int, b: int|
            0 <= a < b < keys.len() ==> (#[trigger] keys[a]).id != (#[trigger] keys[b]).id,
    ensures
        parked(keys, id, number) matches Some(after) ==> {
            &&& after.len() == keys.len()
            &&& keys[i].id == id ==> after[i] == (RowKey { number, ..keys[i] })
            &&& keys[i].id != id ==> after[i] == keys[i]
        },
        keys[i].id == id && number_taken(keys, i, number) ==> parked(keys, id, number) is None,
        !has_item(keys, id) ==> parked(keys, id, number) == Some(keys),
{
    if has_item(keys, id) {
        let at = choose|k: int| row_at(keys, k, id);
        assert(row_at(keys, at, id));
        if keys[i].id == id {
            assert(i == at);
        }
    } else {
        assert(!row_at(keys, i, id));
    }
}

/// Directories put in order come one after another, none twice, and are those that were given.
pub proof fn law_directories_come_in_order(
    items: Seq<Seq<char>>,
    ordered: Seq<Seq<char>>,
    i: int,
    j: int,
)
    requires
        ordered_directories(items, ordered),
        0 <= i < j < ordered.len(),
    ensures
        text_before(path_key(ordered[i]), path_key(ordered[j])),
        items.contains(ordered[i]),
        items.contains(ordered[j]),
{
    let keys = path_keys(ordered);
    assert(text_before(keys[i], keys[j]));
    assert(leads_its_like(items, ordered[i]) && leads_its_like(items, ordered[j]));
}

} // verus!
