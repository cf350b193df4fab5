//! Secret stores: how several are layered, and how the secrets of an image are resolved.
//!
//! To look a secret up is the store's own affair. What is looked up, in which order, and what
//! comes of the answers is decided here.
use crate::error::{BoxError, SecretError};
use crate::text::same;
use crate::text_map::TextMap;
use crate::types::image::SecretSchema;
use vstd::prelude::*;

verus! {

/// For which image a secret is resolved. Stores that keep secrets per image use it.
#[derive(Clone, Copy, Debug)]
pub struct SecretContext<'a> {
    pub repo: &'a str,
    pub image_tag: &'a str,
}

/// A secret that was found, with the rules for its use.
#[derive(Clone, Debug)]
pub struct ResolvedSecret {
    pub value: String,
    pub schema: SecretSchema,
}

/// A secret under its name.
#[derive(Clone, Debug)]
pub struct NamedSecret {
    pub name: String,
    pub secret: ResolvedSecret,
}

/// The secrets of a session, by name.
#[derive(Clone, Debug)]
pub struct SecretBundle {
    pub secrets: Vec<NamedSecret>,
}

/// The secrets by name; of two with one name, the later one.
pub open spec fn by_name(secrets: Seq<NamedSecret>) -> Map<Seq<char>, (Seq<char>, SecretSchema)>
    decreases secrets.len(),
{
    if secrets.len() == 0 {
        Map::empty()
    } else {
        let last = secrets.last();
        by_name(secrets.drop_last()).insert(
            last.name@,
            (last.secret.value@, last.secret.schema),
        )
    }
}

impl View for SecretBundle {
    type V = Map<Seq<char>, (Seq<char>, SecretSchema)>;

    open spec fn view(&self) -> Map<Seq<char>, (Seq<char>, SecretSchema)> {
        by_name(self.secrets@)
    }
}

impl SecretBundle {
    /// The secret with the name `name`, if there is one.
    pub fn get(&self, name: &str) -> (res: Option<&ResolvedSecret>)
        ensures
            res is Some <==> self@.contains_key(name@),
            res is Some ==> self@[name@] == (res->0.value@, res->0.schema),
    {
        let mut i: usize = self.secrets.len();
        assert(self.secrets@.take(i as int) =~= self.secrets@);
        while i > 0
            invariant
                i <= self.secrets.len(),
                by_name(self.secrets@).contains_key(name@) <==> by_name(
                    self.secrets@.take(i as int),
                ).contains_key(name@),
                by_name(self.secrets@).contains_key(name@) ==> by_name(self.secrets@)[name@]
                    == by_name(self.secrets@.take(i as int))[name@],
            decreases i,
        {
            let ghost part = self.secrets@.take(i as int);
            i = i - 1;
            assert(part.drop_last() =~= self.secrets@.take(i as int));
            if same(self.secrets[i].name.as_str(), name) {
                return Some(&self.secrets[i].secret);
            }
        }
        None
    }
}

impl Default for SecretBundle {
    fn default() -> (res: SecretBundle)
        ensures
            res@ == Map::<Seq<char>, (Seq<char>, SecretSchema)>::empty(),
    {
        SecretBundle { secrets: Vec::new() }
    }
}

/// A secret that an image names.
#[derive(Clone, Debug)]
pub struct SecretNeed {
    pub name: String,
    pub schema: SecretSchema,
}

/// What the settled needs come to: each secret that has a value, under its name.
pub open spec fn settled(needs: Seq<SecretNeed>, values: Seq<Option<String>>) -> Map<
    Seq<char>,
    (Seq<char>, SecretSchema),
>
    decreases values.len(),
{
    if values.len() == 0 {
        Map::empty()
    } else {
        let i = values.len() - 1;
        let before = settled(needs, values.drop_last());
        match values[i] {
            Some(value) => before.insert(needs[i].name@, (value@, needs[i].schema)),
            None => before,
        }
    }
}

/// What is said where a required secret is absent.
pub open spec fn absent(name: Seq<char>) -> Seq<char> {
    "required secret `"@ + name + "` is not available in this deployment"@
}

/// The resolution of the secrets that an image names, need by need.
///
/// A value that was supplied with the request stands in for the lookup. `next` says which
/// secret to look up, `answer` takes what the store found, and `finish` gives the bundle.
pub struct Resolution {
    pub needs: Vec<SecretNeed>,
    pub overrides: TextMap,
    /// The value of each need that is settled; none for one that is optional and absent.
    pub values: Vec<Option<String>>,
}

impl Resolution {
    /// Need `i` is settled as it may be: by the value supplied with the request, where there is
    /// one, and by the absence of a value only where the secret is optional.
    pub open spec fn fair(self, i: int) -> bool {
        let name = self.needs@[i].name@;
        &&& self.overrides@.contains_key(name) ==> self.values@[i] is Some && (self.values@[i]->0)@
            == self.overrides@[name]
        &&& self.values@[i] is None ==> !self.needs@[i].schema.required
    }

    /// Every settled need is settled as it may be.
    pub open spec fn wf(self) -> bool {
        &&& self.values@.len() <= self.needs@.len()
        &&& forall|i: int| 0 <= i < self.values@.len() ==> #[trigger] self.fair(i)
    }

    /// The next need has to be looked up.
    pub open spec fn asks(self) -> bool {
        &&& self.values@.len() < self.needs@.len()
        &&& !self.overrides@.contains_key(self.needs@[self.values@.len() as int].name@)
    }

    /// All needs are settled.
    pub open spec fn complete(self) -> bool {
        self.values@.len() == self.needs@.len()
    }

    /// Nothing is settled yet.
    pub fn new(needs: Vec<SecretNeed>, overrides: TextMap) -> (res: Resolution)
        ensures
            res.wf(),
            res.needs == needs,
            res.overrides@ == overrides@,
            res.values@.len() == 0,
    {
        Resolution { needs, overrides, values: Vec::new() }
    }

    /// The index of the secret to look up next; none when all are settled. Needs whose values
    /// came with the request are settled on the way.
    pub fn next(&mut self) -> (res: Option<usize>)
        requires
            old(self).wf(),
        ensures
            final(self).wf(),
            final(self).needs == old(self).needs,
            final(self).overrides@ == old(self).overrides@,
            old(self).values@ == final(self).values@.take(old(self).values@.len() as int),
            old(self).values@.len() <= final(self).values@.len(),
            forall|i: int|
                old(self).values@.len() <= i < final(self).values@.len()
                    ==> old(self).overrides@.contains_key(#[trigger] old(self).needs@[i].name@),
            match res {
                Some(i) => final(self).asks() && i == final(self).values@.len(),
                None => final(self).complete(),
            },
    {
        let ghost start = *self;
        assert(self.values@.take(start.values@.len() as int) =~= start.values@);
        while self.values.len() < self.needs.len()
            invariant
                self.wf(),
                start == *old(self),
                self.needs == start.needs,
                self.overrides@ == start.overrides@,
                start.values@ == self.values@.take(start.values@.len() as int),
                start.values@.len() <= self.values@.len(),
                forall|i: int|
                    start.values@.len() <= i < self.values@.len()
                        ==> start.overrides@.contains_key(#[trigger] start.needs@[i].name@),
            decreases self.needs@.len() - self.values@.len(),
        {
            let i: usize = self.values.len();
            let value = match self.overrides.get(self.needs[i].name.as_str()) {
                Some(value) => value.to_owned(),
                None => return Some(i),
            };
            let ghost before = *self;
            self.values.push(Some(value));
            assert forall|k: int| 0 <= k < self.values@.len() implies #[trigger] self.fair(k) by {
                if k < before.values@.len() {
                    assert(before.fair(k));
                }
            }
            assert(self.values@.take(start.values@.len() as int) =~= before.values@.take(
                start.values@.len() as int,
            ));
        }
        None
    }

    /// Takes what the store found for the secret that `next` named. A required secret that is
    /// absent is an error, and nothing changes.
    pub fn answer(&mut self, found: Option<String>) -> (res: Result<(), SecretError>)
        requires
            old(self).wf(),
            old(self).asks(),
        ensures
            final(self).wf(),
            final(self).needs == old(self).needs,
            final(self).overrides@ == old(self).overrides@,
            ({
                let need = old(self).needs@[old(self).values@.len() as int];
                if found is None && need.schema.required {
                    &&& res is Err
                    &&& res->Err_0 is Backend
                    &&& res->Err_0->Backend_0.message@ == absent(need.name@)
                    &&& final(self).values@ == old(self).values@
                } else {
                    res is Ok && final(self).values@ == old(self).values@.push(found)
                }
            }),
    {
        let i: usize = self.values.len();
        if found.is_none() && self.needs[i].schema.required {
            let mut text = String::from_str("required secret `");
            text.append(self.needs[i].name.as_str());
            text.append("` is not available in this deployment");
            return Err(SecretError::Backend(BoxError { message: text }));
        }
        let ghost before = *self;
        self.values.push(found);
        assert forall|k: int| 0 <= k < self.values@.len() implies #[trigger] self.fair(k) by {
            if k < before.values@.len() {
                assert(before.fair(k));
            }
        }
        Ok(())
    }

    /// The bundle of all the secrets that have a value.
    pub fn finish(self) -> (res: SecretBundle)
        requires
            self.wf(),
            self.complete(),
        ensures
            res@ == settled(self.needs@, self.values@),
    {
        let Resolution { needs, overrides: _, values } = self;
        let ghost all_needs = needs@;
        let ghost all_values = values@;
        let mut needs = needs;
        let mut values = values;
        let mut found: Vec<NamedSecret> = Vec::new();
        // From the last need to the first; turned round below.
        while values.len() > 0
            invariant
                needs@.len() == values@.len(),
                all_needs.len() == all_values.len(),
                needs@ == all_needs.take(needs@.len() as int),
                values@ == all_values.take(values@.len() as int),
                needs@.len() <= all_needs.len(),
                turned(found@, settled(all_needs, values@)) == settled(all_needs, all_values),
            decreases values.len(),
        {
            let ghost before = values@;
            let ghost found_before = found@;
            let value = values.pop();
            let need = needs.pop();
            assert(values@ =~= before.drop_last());
            assert(values@ =~= all_values.take(values@.len() as int));
            assert(needs@ =~= all_needs.take(needs@.len() as int));
            if let (Some(Some(value)), Some(need)) = (value, need) {
                found.push(
                    NamedSecret {
                        name: need.name,
                        secret: ResolvedSecret { value, schema: need.schema },
                    },
                );
                assert(found@.drop_last() =~= found_before);
            }
        }
        let ghost backwards = found@;
        let mut secrets: Vec<NamedSecret> = Vec::new();
        while found.len() > 0
            invariant
                turned(found@, by_name(secrets@)) == turned(
                    backwards,
                    Map::<Seq<char>, (Seq<char>, SecretSchema)>::empty(),
                ),
            decreases found.len(),
        {
            let ghost before = found@;
            let ghost secrets_before = secrets@;
            if let Some(s) = found.pop() {
                secrets.push(s);
                assert(found@ =~= before.drop_last());
                assert(secrets@.drop_last() =~= secrets_before);
            }
        }
        SecretBundle { secrets }
    }
}

/// `m` with the secrets put in from the last to the first.
spec fn turned(secrets: Seq<NamedSecret>, m: Map<Seq<char>, (Seq<char>, SecretSchema)>) -> Map<
    Seq<char>,
    (Seq<char>, SecretSchema),
>
    decreases secrets.len(),
{
    if secrets.len() == 0 {
        m
    } else {
        let last = secrets.last();
        turned(
            secrets.drop_last(),
            m.insert(last.name@, (last.secret.value@, last.secret.schema)),
        )
    }
}

/// Which names the bundle holds: those of the needs with a value.
proof fn settled_names(needs: Seq<SecretNeed>, values: Seq<Option<String>>, i: int)
    requires
        values.len() <= needs.len(),
        0 <= i < values.len(),
        values[i] is Some,
    ensures
        settled(needs, values).contains_key(needs[i].name@),
    decreases values.len(),
{
    if i < values.len() - 1 {
        settled_names(needs, values.drop_last(), i);
    }
}

/// A resolution that runs to its end gives every required secret.
pub proof fn required_secrets_are_present(r: Resolution, i: int)
    requires
        r.wf(),
        r.complete(),
        0 <= i < r.needs@.len(),
        r.needs@[i].schema.required,
    ensures
        settled(r.needs@, r.values@).contains_key(r.needs@[i].name@),
{
    assert(r.fair(i));
    settled_names(r.needs@, r.values@, i);
}

/// A session gets no secret but those that its image names.
pub proof fn only_needs_are_resolved(
    needs: Seq<SecretNeed>,
    values: Seq<Option<String>>,
    name: Seq<char>,
)
    requires
        values.len() <= needs.len(),
        settled(needs, values).contains_key(name),
    ensures
        exists|i: int|
            0 <= i < values.len() && values[i] is Some && (#[trigger] needs[i]).name@ == name
                && needs[i].schema == settled(needs, values)[name].1,
    decreases values.len(),
{
    let last = values.len() - 1;
    if values[last] is Some && needs[last].name@ == name {
    } else {
        only_needs_are_resolved(needs, values.drop_last(), name);
        let i = choose|i: int|
            0 <= i < values.drop_last().len() && values.drop_last()[i] is Some && (
            #[trigger] needs[i]).name@ == name && needs[i].schema == settled(
                needs,
                values.drop_last(),
            )[name].1;
        assert(values[i] == values.drop_last()[i]);
    }
}

/// A value that is supplied with the request is the one that the session gets.
pub proof fn overrides_win(r: Resolution, i: int)
    requires
        r.wf(),
        r.complete(),
        0 <= i < r.needs@.len(),
        r.overrides@.contains_key(r.needs@[i].name@),
    ensures
        settled(r.needs@, r.values@).contains_key(r.needs@[i].name@),
        settled(r.needs@, r.values@)[r.needs@[i].name@].0 == r.overrides@[r.needs@[i].name@],
{
    assert forall|k: int|
        0 <= k < r.values@.len() && r.needs@[k].name@ == r.needs@[i].name@ implies r.values@[k] is Some
        && (#[trigger] r.values@[k]->0)@ == r.overrides@[r.needs@[i].name@] by {
        assert(r.fair(k));
    }
    same_value(r.needs@, r.values@, i, r.overrides@[r.needs@[i].name@]);
}

/// Where all needs of one name are settled by one value, the bundle holds that value.
proof fn same_value(needs: Seq<SecretNeed>, values: Seq<Option<String>>, i: int, value: Seq<char>)
    requires
        values.len() <= needs.len(),
        0 <= i < values.len(),
        forall|k: int|
            0 <= k < values.len() && needs[k].name@ == needs[i].name@ ==> values[k] is Some
                && (#[trigger] values[k]->0)@ == value,
    ensures
        settled(needs, values).contains_key(needs[i].name@),
        settled(needs, values)[needs[i].name@].0 == value,
    decreases values.len(),
{
    let last = values.len() - 1;
    if needs[last].name@ == needs[i].name@ {
        assert((values[last]->0)@ == value);
    } else {
        let fewer = values.drop_last();
        assert forall|k: int|
            0 <= k < fewer.len() && needs[k].name@ == needs[i].name@ implies fewer[k] is Some && (
        #[trigger] fewer[k]->0)@ == value by {
            assert((values[k]->0)@ == value);
        }
        same_value(needs, fewer, i, value);
    }
}

/// Several stores in a row. The first that has a secret gives it; a store that fails ends the
/// search, since a broken store is a fault and not an absence.
pub struct LayeredSecretStore<S> {
    pub backends: Vec<S>,
}

/// What to do next in a search through layers.
#[derive(Debug)]
pub enum LayerStep {
    /// Ask the store at this index.
    Ask(usize),
    /// The search is over.
    Answer(Result<Option<String>, SecretError>),
}

impl<S> LayeredSecretStore<S> {
    /// The stores are asked in order.
    pub fn new(backends: Vec<S>) -> (res: LayeredSecretStore<S>)
        ensures
            res.backends == backends,
    {
        LayeredSecretStore { backends }
    }

    /// What to do after the stores before `i` had nothing.
    pub open spec fn at(self, i: int) -> LayerStep {
        if i < self.backends@.len() {
            LayerStep::Ask(i as usize)
        } else {
            LayerStep::Answer(Ok(None))
        }
    }

    /// The first step of a search.
    pub fn start(&self) -> (res: LayerStep)
        ensures
            res == self.at(0),
    {
        if self.backends.len() > 0 {
            LayerStep::Ask(0)
        } else {
            LayerStep::Answer(Ok(None))
        }
    }

    /// What to do after `answer`.
    pub open spec fn after(self, i: int, answer: Result<Option<String>, SecretError>) -> LayerStep {
        match answer {
            Ok(None) => self.at(i + 1),
            _ => LayerStep::Answer(answer),
        }
    }

    /// The step after the store at `i` gave `answer`.
    pub fn step(&self, i: usize, answer: Result<Option<String>, SecretError>) -> (res: LayerStep)
        requires
            i < self.backends@.len(),
        ensures
            res == self.after(i as int, answer),
    {
        match answer {
            Ok(None) => {
                if i < self.backends.len() - 1 {
                    LayerStep::Ask(i + 1)
                } else {
                    LayerStep::Answer(Ok(None))
                }
            },
            other => LayerStep::Answer(other),
        }
    }

    /// How a search ends, from the step on, where the store at `i` answers `answers[i]`.
    pub open spec fn outcome(
        self,
        step: LayerStep,
        answers: Seq<Result<Option<String>, SecretError>>,
        fuel: nat,
    ) -> Option<Result<Option<String>, SecretError>>
        decreases fuel,
    {
        match step {
            LayerStep::Answer(a) => Some(a),
            LayerStep::Ask(i) => if fuel == 0 {
                None
            } else {
                self.outcome(self.after(i as int, answers[i as int]), answers, (fuel - 1) as nat)
            },
        }
    }
}

/// A search ends with the first answer that is a secret or a failure, whatever later stores
/// would say.
pub proof fn first_answer_wins<S>(
    store: LayeredSecretStore<S>,
    answers: Seq<Result<Option<String>, SecretError>>,
    i: int,
)
    requires
        answers.len() == store.backends@.len(),
        answers.len() <= usize::MAX,
        0 <= i < answers.len(),
        forall|j: int| 0 <= j < i ==> #[trigger] answers[j] == Ok::<Option<String>, SecretError>(None),
        answers[i] != Ok::<Option<String>, SecretError>(None),
    ensures
        store.outcome(store.at(0), answers, answers.len()) == Some(answers[i]),
{
    search_from(store, answers, i, 0);
}

/// The search from the store at `k` on ends with the answer of the store at `i`.
proof fn search_from<S>(
    store: LayeredSecretStore<S>,
    answers: Seq<Result<Option<String>, SecretError>>,
    i: int,
    k: int,
)
    requires
        answers.len() == store.backends@.len(),
        answers.len() <= usize::MAX,
        0 <= k <= i < answers.len(),
        forall|j: int| 0 <= j < i ==> #[trigger] answers[j] == Ok::<Option<String>, SecretError>(None),
        answers[i] != Ok::<Option<String>, SecretError>(None),
    ensures
        store.outcome(store.at(k), answers, (answers.len() - k) as nat) == Some(answers[i]),
    decreases i - k,
{
    reveal_with_fuel(LayeredSecretStore::outcome, 2);
    if k < i {
        search_from(store, answers, i, k + 1);
        assert(answers[k] == Ok::<Option<String>, SecretError>(None));
    }
}

/// Where every store has nothing, the search finds nothing.
pub proof fn nothing_is_found<S>(
    store: LayeredSecretStore<S>,
    answers: Seq<Result<Option<String>, SecretError>>,
    k: int,
)
    requires
        answers.len() == store.backends@.len(),
        answers.len() <= usize::MAX,
        0 <= k <= answers.len(),
        forall|j: int|
            0 <= j < answers.len() ==> #[trigger] answers[j] == Ok::<Option<String>, SecretError>(
                None,
            ),
    ensures
        store.outcome(store.at(k), answers, (answers.len() - k) as nat) == Some(
            Ok::<Option<String>, SecretError>(None),
        ),
    decreases answers.len() - k,
{
    if k < answers.len() {
        nothing_is_found(store, answers, k + 1);
        assert(answers[k] == Ok::<Option<String>, SecretError>(None));
    }
}

/// A store with fixed values.
#[derive(Clone)]
pub struct StaticSecretStore {
    pub map: TextMap,
}

impl StaticSecretStore {
    pub fn new(map: TextMap) -> (res: StaticSecretStore)
        ensures
            res.map@ == map@,
    {
        StaticSecretStore { map }
    }

    /// The value under `name`, whatever the image and the rules are.
    pub fn get(&self, ctx: &SecretContext<'_>, name: &str, schema: &SecretSchema) -> (res: Result<
        Option<String>,
        SecretError,
    >)
        ensures
            res is Ok,
            res->Ok_0.deep_view() == (if self.map@.contains_key(name@) {
                Some(self.map@[name@])
            } else {
                None
            }),
    {
        match self.map.get(name) {
            Some(value) => Ok(Some(value.to_owned())),
            None => Ok(None),
        }
    }
}

/// The bundle has, under the name of a need, the value that settled it last, with its rules; a
/// name that no need with a value has, it does not have.
pub proof fn the_last_value_counts(needs: Seq<SecretNeed>, values: Seq<Option<String>>, i: int)
    requires
        values.len() <= needs.len(),
        0 <= i < values.len(),
        values[i] is Some,
        forall|k: int|
            i < k < values.len() && values[k] is Some ==> (#[trigger] needs[k]).name@
                != needs[i].name@,
    ensures
        settled(needs, values).contains_key(needs[i].name@),
        settled(needs, values)[needs[i].name@].0 == (values[i]->0)@,
        settled(needs, values)[needs[i].name@].1 == needs[i].schema,
    decreases values.len(),
{
    let last = values.len() - 1;
    if i < last {
        let fewer = values.drop_last();
        assert forall|k: int| i < k < fewer.len() && fewer[k] is Some implies (
        #[trigger] needs[k]).name@ != needs[i].name@ by {
            assert(values[k] == fewer[k]);
        }
        the_last_value_counts(needs, fewer, i);
        if values[last] is Some {
            assert(needs[last].name@ != needs[i].name@);
        }
    }
}

/// A secret that is optional and absent is not in the bundle, unless another need of its name has
/// a value.
pub proof fn absent_secrets_are_left_out(
    needs: Seq<SecretNeed>,
    values: Seq<Option<String>>,
    name: Seq<char>,
)
    requires
        values.len() <= needs.len(),
        forall|k: int|
            0 <= k < values.len() && values[k] is Some ==> (#[trigger] needs[k]).name@ != name,
    ensures
        !settled(needs, values).contains_key(name),
    decreases values.len(),
{
    if values.len() > 0 {
        let fewer = values.drop_last();
        let last = values.len() - 1;
        assert forall|k: int| 0 <= k < fewer.len() && fewer[k] is Some implies (
        #[trigger] needs[k]).name@ != name by {
            assert(values[k] == fewer[k]);
        }
        absent_secrets_are_left_out(needs, fewer, name);
        if values[last] is Some {
            assert(needs[last].name@ != name);
        }
    }
}

/// Of a list of secrets, the last of a name is the one that is found under it.
pub proof fn the_last_of_a_name_is_found(secrets: Seq<NamedSecret>, i: int)
    requires
        0 <= i < secrets.len(),
        forall|j: int| i < j < secrets.len() ==> (#[trigger] secrets[j]).name@ != secrets[i].name@,
    ensures
        by_name(secrets).contains_key(secrets[i].name@),
        by_name(secrets)[secrets[i].name@] == (secrets[i].secret.value@, secrets[i].secret.schema),
    decreases secrets.len(),
{
    let last = secrets.len() - 1;
    if i < last {
        let init = secrets.drop_last();
        assert(init[i] == secrets[i]);
        assert forall|j: int| i < j < init.len() implies (#[trigger] init[j]).name@
            != init[i].name@ by {
            assert(secrets[j] == init[j]);
        }
        the_last_of_a_name_is_found(init, i);
        assert(secrets[last].name@ != secrets[i].name@);
    }
}

/// A name that no secret has is not found.
pub proof fn unknown_names_are_not_found(secrets: Seq<NamedSecret>, name: Seq<char>)
    requires
        forall|j: int| 0 <= j < secrets.len() ==> (#[trigger] secrets[j]).name@ != name,
    ensures
        !by_name(secrets).contains_key(name),
    decreases secrets.len(),
{
    if secrets.len() > 0 {
        let init = secrets.drop_last();
        assert forall|j: int| 0 <= j < init.len() implies (#[trigger] init[j]).name@ != name by {
            assert(secrets[j] == init[j]);
        }
        unknown_names_are_not_found(init, name);
        assert(secrets[secrets.len() - 1].name@ != name);
    }
}

/// What is said of an absent secret names it.
pub proof fn absence_names_the_secret(name: Seq<char>)
    ensures
        exists|a: Seq<char>, b: Seq<char>| #[trigger] (a + name + b) == absent(name) && a.len()
            == 17,
{
    reveal_strlit("required secret `");
    assert("required secret `"@ + name + "` is not available in this deployment"@ == absent(name));
}

/// A secret is asked for exactly where it is the next need and no value came with the request.
pub proof fn only_open_needs_are_asked_for(r: Resolution)
    ensures
        r.asks() <==> r.values@.len() < r.needs@.len() && !r.overrides@.dom().contains(
            r.needs@[r.values@.len() as int].name@,
        ),
{
}

} // verus!
