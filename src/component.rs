use vstd::prelude::*;
use vstd::string::StrSliceExecFns;
use vstd::string::StringExecFns;

use twilight_model::channel::message::ReactionType;

use crate::binding::BindingTable;
use crate::errors::DuskError;
use crate::ident::{
    decimal, is_alphanumeric, qualify, random_id, sub_scope, BuildContextPrefix,
    GENERATED_ID_LEN, MAX_CUSTOM_ID_LEN,
};

verus! {

/// An emoji shown on a control, carried through unchanged.
#[verifier::external_type_specification]
#[verifier::external_body]
pub struct ExReactionType(ReactionType);

/// Most controls a row can hold.
pub const MAX_ROW_LEN: usize = 5;

/// How a button is drawn.
#[derive(Clone, Copy, Debug, PartialEq, Eq, Structural)]
pub enum ButtonStyle {
    Primary,
    Secondary,
    Success,
    Danger,
    Link,
}

/// A clickable button; `on_click` runs when it is pressed.
pub struct Button<H> {
    pub id: String,
    pub disabled: bool,
    pub emoji: Option<ReactionType>,
    pub label: Option<String>,
    pub style: ButtonStyle,
    pub url: Option<String>,
    pub on_click: Option<H>,
}

/// One choice of a select menu.
pub struct SelectOption {
    pub default: bool,
    pub description: Option<String>,
    pub emoji: Option<ReactionType>,
    pub label: String,
    pub value: String,
}

/// A drop-down list; `on_change` runs when a choice is made.
pub struct SelectMenu<H> {
    pub id: String,
    pub disabled: bool,
    pub max_values: Option<u8>,
    pub min_values: Option<u8>,
    pub options: Vec<SelectOption>,
    pub placeholder: Option<String>,
    pub on_change: Option<H>,
}

/// A control that can stand inside a row.
pub enum Component<H> {
    Button(Button<H>),
    SelectMenu(SelectMenu<H>),
}

/// A row of controls, lowered under consecutive index scopes.
pub struct Row<H> {
    pub children: Vec<Component<H>>,
}

/// A row of at most `MAX_ROW_LEN` buttons.
pub struct RowButton<H> {
    children: Vec<Button<H>>,
}

/// A node that can stand at the top of a window: row-shaped.
pub enum RootComponent<H> {
    Row(Row<H>),
    SelectMenu(SelectMenu<H>),
}

/// The tree one render pass produces.
pub struct CompWindow<H> {
    pub children: Vec<RootComponent<H>>,
}

/// A lowered button, as sent to the messaging service.
pub struct ButtonControl {
    pub custom_id: String,
    pub disabled: bool,
    pub emoji: Option<ReactionType>,
    pub label: Option<String>,
    pub style: ButtonStyle,
    pub url: Option<String>,
}

/// A lowered select menu, as sent to the messaging service.
pub struct SelectMenuControl {
    pub custom_id: String,
    pub disabled: bool,
    pub max_values: Option<u8>,
    pub min_values: Option<u8>,
    pub options: Vec<SelectOption>,
    pub placeholder: Option<String>,
}

/// A lowered control.
pub enum Control {
    Button(ButtonControl),
    SelectMenu(SelectMenuControl),
}

/// A lowered row.
pub struct ActionRow {
    pub components: Vec<Control>,
}

impl Control {
    pub open spec fn spec_custom_id(self) -> Seq<char> {
        match self {
            Control::Button(b) => b.custom_id@,
            Control::SelectMenu(m) => m.custom_id@,
        }
    }
}

pub open spec fn views(v: Seq<String>) -> Seq<Seq<char>> {
    v.map_values(|s: String| s@)
}

/// Identifiers the messaging service accepts in one message: distinct and
/// short enough.
pub open spec fn valid_ids(ids: Seq<Seq<char>>) -> bool {
    &&& ids.no_duplicates()
    &&& forall|k: int| 0 <= k < ids.len() ==> (#[trigger] ids[k]).len() <= MAX_CUSTOM_ID_LEN
}

pub open spec fn occurs_twice(ids: Seq<Seq<char>>, s: Seq<char>) -> bool {
    exists|i: int, j: int| 0 <= i < j < ids.len() && #[trigger] ids[i] == s && #[trigger] ids[j] == s
}

/// `e` names an identifier of `ids` that makes them invalid.
pub open spec fn error_witness(ids: Seq<Seq<char>>, e: DuskError) -> bool {
    match e {
        DuskError::CustomIdTooLong(s) => ids.contains(s@) && s@.len() > MAX_CUSTOM_ID_LEN,
        DuskError::DuplicateCustomId(s) => occurs_twice(ids, s@),
        _ => false,
    }
}

pub proof fn lemma_witness_invalid(ids: Seq<Seq<char>>, e: DuskError)
    requires
        error_witness(ids, e),
    ensures
        !valid_ids(ids),
{
    match e {
        DuskError::CustomIdTooLong(s) => {
            let k = choose|k: int| 0 <= k < ids.len() && ids[k] == s@;
            assert(ids[k].len() > MAX_CUSTOM_ID_LEN);
        },
        DuskError::DuplicateCustomId(s) => {
            let (i, j) = choose|i: int, j: int|
                0 <= i < j < ids.len() && #[trigger] ids[i] == s@ && #[trigger] ids[j] == s@;
            assert(ids[i] == ids[j]);
        },
        _ => {},
    }
}

proof fn lemma_witness_prefix(a: Seq<Seq<char>>, b: Seq<Seq<char>>, e: DuskError)
    requires
        error_witness(a, e),
        a.len() <= b.len(),
        forall|k: int| 0 <= k < a.len() ==> a[k] == b[k],
    ensures
        error_witness(b, e),
{
    match e {
        DuskError::CustomIdTooLong(s) => {
            let k = choose|k: int| 0 <= k < a.len() && a[k] == s@;
            assert(b[k] == s@);
        },
        DuskError::DuplicateCustomId(s) => {
            let (i, j) = choose|i: int, j: int|
                0 <= i < j < a.len() && #[trigger] a[i] == s@ && #[trigger] a[j] == s@;
            assert(b[i] == s@ && b[j] == s@);
        },
        _ => {},
    }
}

proof fn lemma_valid_push(s: Seq<Seq<char>>, q: Seq<char>)
    requires
        valid_ids(s),
        q.len() <= MAX_CUSTOM_ID_LEN,
        !s.contains(q),
    ensures
        valid_ids(s.push(q)),
{
    let t = s.push(q);
    assert forall|i: int, j: int| 0 <= i < t.len() && 0 <= j < t.len() && i != j implies t[i]
        != t[j] by {
        if i == s.len() {
            assert(s[j] == t[j]);
        } else if j == s.len() {
            assert(s[i] == t[i]);
        }
    }
    assert forall|k: int| 0 <= k < t.len() implies (#[trigger] t[k]).len()
        <= MAX_CUSTOM_ID_LEN by {
        if k < s.len() {
            assert(t[k] == s[k]);
        }
    }
}

impl<H> Component<H> {
    pub open spec fn spec_id(self) -> Seq<char> {
        match self {
            Component::Button(b) => b.id@,
            Component::SelectMenu(m) => m.id@,
        }
    }

    pub open spec fn handler(self) -> Option<H> {
        match self {
            Component::Button(b) => b.on_click,
            Component::SelectMenu(m) => m.on_change,
        }
    }

    /// `w` is this control lowered in `scope`: its fields carried over, its
    /// identifier qualified.
    pub open spec fn lowers_to(self, scope: Seq<char>, w: Control) -> bool {
        match self {
            Component::Button(b) => match w {
                Control::Button(x) => {
                    &&& x.custom_id@ == qualify(scope, b.id@)
                    &&& x.disabled == b.disabled
                    &&& x.emoji == b.emoji
                    &&& x.label == b.label
                    &&& x.style == b.style
                    &&& x.url == b.url
                },
                _ => false,
            },
            Component::SelectMenu(m) => match w {
                Control::SelectMenu(x) => {
                    &&& x.custom_id@ == qualify(scope, m.id@)
                    &&& x.disabled == m.disabled
                    &&& x.max_values == m.max_values
                    &&& x.min_values == m.min_values
                    &&& x.options == m.options
                    &&& x.placeholder == m.placeholder
                },
                _ => false,
            },
        }
    }

    /// The binding this control adds when lowered in `scope`.
    pub open spec fn binding_in(self, scope: Seq<char>) -> Seq<(Seq<char>, H)> {
        match self.handler() {
            Some(h) => seq![(qualify(scope, self.spec_id()), h)],
            None => seq![],
        }
    }

    fn id_ref(&self) -> (r: &String)
        ensures
            r@ == self.spec_id(),
    {
        match self {
            Component::Button(b) => &b.id,
            Component::SelectMenu(m) => &m.id,
        }
    }

    /// Lowers this control in `scope`, checks its identifier against those
    /// already lowered in this pass, and moves its handler into `binding`.
    pub fn build(
        self,
        scope: &BuildContextPrefix,
        seen: &mut Vec<String>,
        binding: &mut BindingTable<H>,
    ) -> (r: Result<Control, DuskError>)
        requires
            valid_ids(views(old(seen)@)),
            old(binding).wf(),
            forall|k: Seq<char>| #[trigger]
                old(binding).keys().contains(k) ==> views(old(seen)@).contains(k),
        ensures
            ({
                let ids = views(old(seen)@).push(qualify(scope.prefix@, self.spec_id()));
                match r {
                    Ok(w) => {
                        &&& valid_ids(ids)
                        &&& views(final(seen)@) == ids
                        &&& self.lowers_to(scope.prefix@, w)
                        &&& final(binding)@ == old(binding)@ + self.binding_in(scope.prefix@)
                        &&& forall|k: Seq<char>| #[trigger]
                            final(binding).keys().contains(k) ==> ids.contains(k)
                        &&& final(binding).wf()
                    },
                    Err(e) => {
                        &&& error_witness(ids, e)
                        &&& final(binding)@ == old(binding)@
                        &&& final(seen)@ == old(seen)@
                    },
                }
            }),
    {
        let ghost old_seen = views(seen@);
        let q = scope.qualify(self.id_ref());
        let ghost ids = old_seen.push(q@);
        assert(ids[ids.len() - 1] == q@);
        if q.as_str().unicode_len() > MAX_CUSTOM_ID_LEN {
            return Err(DuskError::CustomIdTooLong(q));
        }
        if contains_id(seen, &q) {
            proof {
                let k = choose|k: int| 0 <= k < old_seen.len() && old_seen[k] == q@;
                assert(ids[k] == q@);
            }
            return Err(DuskError::DuplicateCustomId(q));
        }
        proof {
            lemma_valid_push(old_seen, q@);
        }
        let ghost old_binding = binding@;
        let ghost old_bt = *binding;
        seen.push(q.clone());
        assert(views(seen@) =~= ids);
        match self {
            Component::Button(b) => {
                let Button { id: _, disabled, emoji, label, style, url, on_click } = b;
                match on_click {
                    Some(h) => {
                        binding.insert(q.clone(), h);
                    },
                    None => {},
                }
                assert(binding@ =~= old_binding + self.binding_in(scope.prefix@));
                proof {
                    lemma_keys_within(old_bt, *binding, old_seen, q@, self.binding_in(scope.prefix@));
                }
                Ok(Control::Button(ButtonControl { custom_id: q, disabled, emoji, label, style, url }))
            },
            Component::SelectMenu(m) => {
                let SelectMenu {
                    id: _,
                    disabled,
                    max_values,
                    min_values,
                    options,
                    placeholder,
                    on_change,
                } = m;
                match on_change {
                    Some(h) => {
                        binding.insert(q.clone(), h);
                    },
                    None => {},
                }
                assert(binding@ =~= old_binding + self.binding_in(scope.prefix@));
                proof {
                    lemma_keys_within(old_bt, *binding, old_seen, q@, self.binding_in(scope.prefix@));
                }
                Ok(
                    Control::SelectMenu(
                        SelectMenuControl {
                            custom_id: q,
                            disabled,
                            max_values,
                            min_values,
                            options,
                            placeholder,
                        },
                    ),
                )
            },
        }
    }
}

/// Identifiers of the first `n` children of a row lowered in `scope`.
pub open spec fn row_ids<H>(children: Seq<Component<H>>, scope: Seq<char>, n: nat) -> Seq<
    Seq<char>,
>
    decreases n,
{
    if n == 0 {
        seq![]
    } else {
        row_ids(children, scope, (n - 1) as nat).push(
            qualify(sub_scope(scope, (n - 1) as nat), children[n - 1].spec_id()),
        )
    }
}

/// Bindings added by the first `n` children of a row lowered in `scope`.
pub open spec fn row_bindings<H>(children: Seq<Component<H>>, scope: Seq<char>, n: nat) -> Seq<
    (Seq<char>, H),
>
    decreases n,
{
    if n == 0 {
        seq![]
    } else {
        row_bindings(children, scope, (n - 1) as nat) + children[n - 1].binding_in(
            sub_scope(scope, (n - 1) as nat),
        )
    }
}

/// `a` is the row of `children` lowered in `scope`, child `j` under `scope:j`.
pub open spec fn row_lowers_to<H>(children: Seq<Component<H>>, scope: Seq<char>, a: ActionRow) -> bool {
    &&& a.components@.len() == children.len()
    &&& forall|j: int|
        #![trigger a.components@[j]]
        0 <= j < children.len() ==> children[j].lowers_to(sub_scope(scope, j as nat), a.components@[j])
}

proof fn lemma_row_ids_len<H>(children: Seq<Component<H>>, scope: Seq<char>, n: nat)
    ensures
        row_ids(children, scope, n).len() == n,
    decreases n,
{
    if n > 0 {
        lemma_row_ids_len(children, scope, (n - 1) as nat);
    }
}

proof fn lemma_row_ids_prefix<H>(children: Seq<Component<H>>, scope: Seq<char>, j: nat, n: nat)
    requires
        j <= n,
    ensures
        forall|k: int| 0 <= k < j ==> row_ids(children, scope, j)[k] == row_ids(children, scope, n)[k],
    decreases n,
{
    if n > j {
        lemma_row_ids_prefix(children, scope, j, (n - 1) as nat);
        lemma_row_ids_len(children, scope, (n - 1) as nat);
        lemma_row_ids_len(children, scope, j);
    }
}

impl<H> Row<H> {
    pub fn new() -> (r: Self)
        ensures
            r.children@.len() == 0,
    {
        Row { children: Vec::new() }
    }

    /// This row with `child` appended.
    pub fn add(self, child: Component<H>) -> (r: Self)
        ensures
            r.children@ == self.children@.push(child),
    {
        let mut children = self.children;
        children.push(child);
        Row { children }
    }

    /// Lowers the row in `scope`, child `j` under `scope:j`.
    pub fn build(
        self,
        scope: &BuildContextPrefix,
        seen: &mut Vec<String>,
        binding: &mut BindingTable<H>,
    ) -> (r: Result<ActionRow, DuskError>)
        requires
            valid_ids(views(old(seen)@)),
            old(binding).wf(),
            forall|k: Seq<char>| #[trigger]
                old(binding).keys().contains(k) ==> views(old(seen)@).contains(k),
        ensures
            ({
                let ids = views(old(seen)@) + row_ids(
                    self.children@,
                    scope.prefix@,
                    self.children@.len(),
                );
                match r {
                    Ok(a) => {
                        &&& valid_ids(ids)
                        &&& views(final(seen)@) == ids
                        &&& row_lowers_to(self.children@, scope.prefix@, a)
                        &&& final(binding)@ == old(binding)@ + row_bindings(
                            self.children@,
                            scope.prefix@,
                            self.children@.len(),
                        )
                        &&& forall|k: Seq<char>| #[trigger]
                            final(binding).keys().contains(k) ==> ids.contains(k)
                        &&& final(binding).wf()
                    },
                    Err(e) => {
                        &&& error_witness(ids, e)
                        &&& old(binding)@.is_prefix_of(final(binding)@)
                        &&& final(binding)@.is_prefix_of(
                            old(binding)@ + row_bindings(
                                self.children@,
                                scope.prefix@,
                                self.children@.len(),
                            ),
                        )
                        &&& final(binding).wf()
                    },
                }
            }),
    {
        let ghost orig = self.children@;
        let ghost s0 = views(seen@);
        let ghost b0 = binding@;
        let mut children = self.children;
        let mut comps: Vec<Control> = Vec::new();
        let n = children.len();
        let mut j: usize = 0;
        assert(s0 =~= s0 + row_ids(orig, scope.prefix@, 0));
        assert(b0 =~= b0 + row_bindings(orig, scope.prefix@, 0));
        assert(children@ =~= orig.subrange(0, n as int));
        while j < n
            invariant
                orig == self.children@,
                s0 == views(old(seen)@),
                b0 == old(binding)@,
                n == orig.len(),
                j <= n,
                children@ == orig.subrange(j as int, n as int),
                views(seen@) == s0 + row_ids(orig, scope.prefix@, j as nat),
                valid_ids(views(seen@)),
                binding@ == b0 + row_bindings(orig, scope.prefix@, j as nat),
                forall|k: Seq<char>| #[trigger]
                    binding.keys().contains(k) ==> views(seen@).contains(k),
                binding.wf(),
                comps@.len() == j,
                forall|t: int|
                    #![trigger comps@[t]]
                    0 <= t < j ==> orig[t].lowers_to(sub_scope(scope.prefix@, t as nat), comps@[t]),
            decreases n - j,
        {
            let child = children.remove(0);
            assert(child == orig[j as int]);
            let sub = scope.sub(j);
            let ghost before = views(seen@);
            let ghost bb = binding@;
            let r = child.build(&sub, seen, binding);
            assert(before.push(qualify(sub.prefix@, child.spec_id())) =~= s0 + row_ids(
                orig,
                scope.prefix@,
                (j + 1) as nat,
            ));
            match r {
                Ok(w) => {
                    comps.push(w);
                    assert(bb + child.binding_in(sub.prefix@) =~= b0 + row_bindings(
                        orig,
                        scope.prefix@,
                        (j + 1) as nat,
                    ));
                },
                Err(e) => {
                    proof {
                        lemma_row_ids_prefix(orig, scope.prefix@, (j + 1) as nat, n as nat);
                        lemma_row_ids_len(orig, scope.prefix@, (j + 1) as nat);
                        lemma_row_ids_len(orig, scope.prefix@, n as nat);
                        let a = s0 + row_ids(orig, scope.prefix@, (j + 1) as nat);
                        let b = s0 + row_ids(orig, scope.prefix@, n as nat);
                        assert forall|k: int| 0 <= k < a.len() implies a[k] == b[k] by {
                            if k >= s0.len() {
                                assert(a[k] == row_ids(orig, scope.prefix@, (j + 1) as nat)[k
                                    - s0.len()]);
                            }
                        }
                        lemma_witness_prefix(a, b, e);
                        lemma_row_bindings_prefix(orig, scope.prefix@, j as nat, n as nat);
                        lemma_prefix_extend(
                            b0,
                            row_bindings(orig, scope.prefix@, j as nat),
                            row_bindings(orig, scope.prefix@, n as nat),
                        );
                        lemma_prefix_append(b0, row_bindings(orig, scope.prefix@, j as nat));
                    }
                    return Err(e);
                },
            }
            j = j + 1;
        }
        Ok(ActionRow { components: comps })
    }
}

impl<H> RootComponent<H> {
    /// Identifiers of this node's controls when it stands at `index`.
    pub open spec fn ids_at(self, index: nat) -> Seq<Seq<char>> {
        match self {
            RootComponent::Row(r) => row_ids(r.children@, decimal(index), r.children@.len()),
            RootComponent::SelectMenu(m) => seq![qualify(decimal(index), m.id@)],
        }
    }

    /// Bindings this node adds when it stands at `index`.
    pub open spec fn bindings_at(self, index: nat) -> Seq<(Seq<char>, H)> {
        match self {
            RootComponent::Row(r) => row_bindings(r.children@, decimal(index), r.children@.len()),
            RootComponent::SelectMenu(m) => Component::SelectMenu(m).binding_in(decimal(index)),
        }
    }

    /// `a` is this node lowered at `index`; a lone select menu is wrapped
    /// in a row of its own.
    pub open spec fn lowers_to(self, index: nat, a: ActionRow) -> bool {
        match self {
            RootComponent::Row(r) => row_lowers_to(r.children@, decimal(index), a),
            RootComponent::SelectMenu(m) => {
                &&& a.components@.len() == 1
                &&& Component::SelectMenu(m).lowers_to(decimal(index), a.components@[0])
            },
        }
    }

    /// Lowers this node as the child at `index` of the window.
    pub fn build(self, index: usize, seen: &mut Vec<String>, binding: &mut BindingTable<H>) -> (r:
        Result<ActionRow, DuskError>)
        requires
            valid_ids(views(old(seen)@)),
            old(binding).wf(),
            forall|k: Seq<char>| #[trigger]
                old(binding).keys().contains(k) ==> views(old(seen)@).contains(k),
        ensures
            ({
                let ids = views(old(seen)@) + self.ids_at(index as nat);
                match r {
                    Ok(a) => {
                        &&& valid_ids(ids)
                        &&& views(final(seen)@) == ids
                        &&& self.lowers_to(index as nat, a)
                        &&& final(binding)@ == old(binding)@ + self.bindings_at(index as nat)
                        &&& forall|k: Seq<char>| #[trigger]
                            final(binding).keys().contains(k) ==> ids.contains(k)
                        &&& final(binding).wf()
                    },
                    Err(e) => {
                        &&& error_witness(ids, e)
                        &&& old(binding)@.is_prefix_of(final(binding)@)
                        &&& final(binding)@.is_prefix_of(
                            old(binding)@ + self.bindings_at(index as nat),
                        )
                        &&& final(binding).wf()
                    },
                }
            }),
    {
        let scope = BuildContextPrefix::root(index);
        match self {
            RootComponent::Row(row) => row.build(&scope, seen, binding),
            RootComponent::SelectMenu(m) => {
                let ghost before = views(seen@);
                let ghost leaf = Component::SelectMenu(m);
                assert(before.push(qualify(scope.prefix@, leaf.spec_id())) =~= before
                    + self.ids_at(index as nat));
                match Component::SelectMenu(m).build(&scope, seen, binding) {
                    Ok(w) => {
                        let mut components: Vec<Control> = Vec::new();
                        components.push(w);
                        Ok(ActionRow { components })
                    },
                    Err(e) => {
                        proof {
                            lemma_prefix_append(binding@, self.bindings_at(index as nat));
                            assert(binding@ =~= binding@.subrange(0, binding@.len() as int));
                        }
                        Err(e)
                    },
                }
            },
        }
    }
}

/// Identifiers of the controls of the first `n` top-level nodes.
pub open spec fn window_ids<H>(roots: Seq<RootComponent<H>>, n: nat) -> Seq<Seq<char>>
    decreases n,
{
    if n == 0 {
        seq![]
    } else {
        window_ids(roots, (n - 1) as nat) + roots[n - 1].ids_at((n - 1) as nat)
    }
}

/// Bindings added by the first `n` top-level nodes.
pub open spec fn window_bindings<H>(roots: Seq<RootComponent<H>>, n: nat) -> Seq<(Seq<char>, H)>
    decreases n,
{
    if n == 0 {
        seq![]
    } else {
        window_bindings(roots, (n - 1) as nat) + roots[n - 1].bindings_at((n - 1) as nat)
    }
}

proof fn lemma_window_ids_prefix<H>(roots: Seq<RootComponent<H>>, i: nat, n: nat)
    requires
        i <= n,
    ensures
        window_ids(roots, i).len() <= window_ids(roots, n).len(),
        forall|k: int|
            0 <= k < window_ids(roots, i).len() ==> window_ids(roots, i)[k] == window_ids(
                roots,
                n,
            )[k],
    decreases n,
{
    if n > i {
        lemma_window_ids_prefix(roots, i, (n - 1) as nat);
    }
}

impl<H> CompWindow<H> {
    /// The fully-qualified identifiers of every control, in order.
    pub open spec fn ids(&self) -> Seq<Seq<char>> {
        window_ids(self.children@, self.children@.len())
    }

    /// The bindings a render pass of this window makes, in order.
    pub open spec fn bindings(&self) -> Seq<(Seq<char>, H)> {
        window_bindings(self.children@, self.children@.len())
    }

    /// `rows` is this window lowered, top-level node `i` as row `i`.
    pub open spec fn lowers_to(&self, rows: Seq<ActionRow>) -> bool {
        &&& rows.len() == self.children@.len()
        &&& forall|i: int|
            #![trigger rows[i]]
            0 <= i < rows.len() ==> self.children@[i].lowers_to(i as nat, rows[i])
    }

    pub fn new() -> (r: Self)
        ensures
            r.children@.len() == 0,
    {
        CompWindow { children: Vec::new() }
    }

    /// This window with `child` appended.
    pub fn add(self, child: RootComponent<H>) -> (r: Self)
        ensures
            r.children@ == self.children@.push(child),
    {
        let mut children = self.children;
        children.push(child);
        CompWindow { children }
    }

    /// Lowers the window into rows, moving every handler into `binding`
    /// under its control's fully-qualified identifier. Fails when two
    /// identifiers coincide or one is too long.
    pub fn build(self, binding: &mut BindingTable<H>) -> (r: Result<Vec<ActionRow>, DuskError>)
        requires
            old(binding)@.len() == 0,
        ensures
            r is Ok <==> valid_ids(self.ids()),
            match r {
                Ok(rows) => {
                    &&& self.lowers_to(rows@)
                    &&& final(binding)@ == self.bindings()
                    &&& final(binding).wf()
                },
                Err(e) => {
                    &&& error_witness(self.ids(), e)
                    &&& final(binding)@.is_prefix_of(self.bindings())
                    &&& final(binding).wf()
                },
            },
    {
        let ghost orig = self.children@;
        let mut children = self.children;
        let n = children.len();
        let mut seen: Vec<String> = Vec::new();
        let mut rows: Vec<ActionRow> = Vec::new();
        let mut i: usize = 0;
        assert(views(seen@) =~= window_ids(orig, 0));
        assert(binding@ =~= window_bindings(orig, 0));
        assert(binding.keys() =~= Seq::<Seq<char>>::empty());
        assert(children@ =~= orig.subrange(0, n as int));
        while i < n
            invariant
                orig == self.children@,
                n == orig.len(),
                i <= n,
                children@ == orig.subrange(i as int, n as int),
                views(seen@) == window_ids(orig, i as nat),
                valid_ids(views(seen@)),
                binding@ == window_bindings(orig, i as nat),
                forall|k: Seq<char>| #[trigger]
                    binding.keys().contains(k) ==> views(seen@).contains(k),
                binding.wf(),
                rows@.len() == i,
                forall|t: int| #![trigger rows@[t]] 0 <= t < i ==> orig[t].lowers_to(t as nat, rows@[t]),
            decreases n - i,
        {
            let child = children.remove(0);
            assert(child == orig[i as int]);
            let r = child.build(i, &mut seen, binding);
            match r {
                Ok(a) => {
                    rows.push(a);
                },
                Err(e) => {
                    proof {
                        lemma_window_ids_prefix(orig, (i + 1) as nat, n as nat);
                        lemma_witness_prefix(
                            window_ids(orig, (i + 1) as nat),
                            window_ids(orig, n as nat),
                            e,
                        );
                        lemma_witness_invalid(window_ids(orig, n as nat), e);
                        lemma_window_bindings_prefix(orig, (i + 1) as nat, n as nat);
                        lemma_prefix_trans(
                            binding@,
                            window_bindings(orig, (i + 1) as nat),
                            window_bindings(orig, n as nat),
                        );
                    }
                    return Err(e);
                },
            }
            i = i + 1;
        }
        Ok(rows)
    }
}

impl<H> Button<H> {
    /// A primary-style button labelled `label`, under a fresh random identifier.
    pub fn new(label: &str) -> (r: Self)
        ensures
            r.id@.len() == GENERATED_ID_LEN,
            forall|i: int| 0 <= i < r.id@.len() ==> is_alphanumeric(#[trigger] r.id@[i]),
            !r.disabled,
            r.emoji is None,
            r.label is Some && r.label->Some_0@ == label@,
            r.style == ButtonStyle::Primary,
            r.url is None,
            r.on_click is None,
    {
        Button {
            id: random_id(),
            disabled: false,
            emoji: None,
            label: Some(String::from_str(label)),
            style: ButtonStyle::Primary,
            url: None,
            on_click: None,
        }
    }

    /// Sets the identifier, which then stays the same across renders.
    pub fn id(self, id: &str) -> (r: Self)
        ensures
            r.id@ == id@,
            r.disabled == self.disabled && r.emoji == self.emoji && r.label == self.label,
            r.style == self.style && r.url == self.url && r.on_click == self.on_click,
    {
        Button { id: String::from_str(id), ..self }
    }

    pub fn disabled(self, disabled: bool) -> (r: Self)
        ensures
            r.disabled == disabled,
            r.id == self.id && r.emoji == self.emoji && r.label == self.label,
            r.style == self.style && r.url == self.url && r.on_click == self.on_click,
    {
        Button { disabled, ..self }
    }

    pub fn emoji(self, emoji: ReactionType) -> (r: Self)
        ensures
            r.emoji == Some(emoji),
            r.id == self.id && r.disabled == self.disabled && r.label == self.label,
            r.style == self.style && r.url == self.url && r.on_click == self.on_click,
    {
        Button { emoji: Some(emoji), ..self }
    }

    pub fn label(self, label: &str) -> (r: Self)
        ensures
            r.label is Some && r.label->Some_0@ == label@,
            r.id == self.id && r.disabled == self.disabled && r.emoji == self.emoji,
            r.style == self.style && r.url == self.url && r.on_click == self.on_click,
    {
        Button { label: Some(String::from_str(label)), ..self }
    }

    pub fn style(self, style: ButtonStyle) -> (r: Self)
        ensures
            r.style == style,
            r.id == self.id && r.disabled == self.disabled && r.emoji == self.emoji,
            r.label == self.label && r.url == self.url && r.on_click == self.on_click,
    {
        Button { style, ..self }
    }

    pub fn url(self, url: &str) -> (r: Self)
        ensures
            r.url is Some && r.url->Some_0@ == url@,
            r.id == self.id && r.disabled == self.disabled && r.emoji == self.emoji,
            r.label == self.label && r.style == self.style && r.on_click == self.on_click,
    {
        Button { url: Some(String::from_str(url)), ..self }
    }

    /// Sets the handler run when the button is pressed.
    pub fn on_click(self, f: H) -> (r: Self)
        ensures
            r.on_click == Some(f),
            r.id == self.id && r.disabled == self.disabled && r.emoji == self.emoji,
            r.label == self.label && r.style == self.style && r.url == self.url,
    {
        Button { on_click: Some(f), ..self }
    }
}

impl<H> SelectMenu<H> {
    /// An empty menu under a fresh random identifier.
    pub fn new() -> (r: Self)
        ensures
            r.id@.len() == GENERATED_ID_LEN,
            forall|i: int| 0 <= i < r.id@.len() ==> is_alphanumeric(#[trigger] r.id@[i]),
            !r.disabled,
            r.max_values is None,
            r.min_values is None,
            r.options@.len() == 0,
            r.placeholder is None,
            r.on_change is None,
    {
        SelectMenu {
            id: random_id(),
            disabled: false,
            max_values: None,
            min_values: None,
            options: Vec::new(),
            placeholder: None,
            on_change: None,
        }
    }

    /// Sets the identifier, which then stays the same across renders.
    pub fn id(self, id: &str) -> (r: Self)
        ensures
            r.id@ == id@,
            r.disabled == self.disabled && r.max_values == self.max_values,
            r.min_values == self.min_values && r.options == self.options,
            r.placeholder == self.placeholder && r.on_change == self.on_change,
    {
        SelectMenu { id: String::from_str(id), ..self }
    }

    pub fn disabled(self, disabled: bool) -> (r: Self)
        ensures
            r.disabled == disabled,
            r.id == self.id && r.max_values == self.max_values,
            r.min_values == self.min_values && r.options == self.options,
            r.placeholder == self.placeholder && r.on_change == self.on_change,
    {
        SelectMenu { disabled, ..self }
    }

    pub fn max_values(self, max_values: u8) -> (r: Self)
        ensures
            r.max_values == Some(max_values),
            r.id == self.id && r.disabled == self.disabled,
            r.min_values == self.min_values && r.options == self.options,
            r.placeholder == self.placeholder && r.on_change == self.on_change,
    {
        SelectMenu { max_values: Some(max_values), ..self }
    }

    pub fn min_values(self, min_values: u8) -> (r: Self)
        ensures
            r.min_values == Some(min_values),
            r.id == self.id && r.disabled == self.disabled,
            r.max_values == self.max_values && r.options == self.options,
            r.placeholder == self.placeholder && r.on_change == self.on_change,
    {
        SelectMenu { min_values: Some(min_values), ..self }
    }

    pub fn options(self, options: Vec<SelectOption>) -> (r: Self)
        ensures
            r.options == options,
            r.id == self.id && r.disabled == self.disabled,
            r.max_values == self.max_values && r.min_values == self.min_values,
            r.placeholder == self.placeholder && r.on_change == self.on_change,
    {
        SelectMenu { options, ..self }
    }

    pub fn placeholder(self, placeholder: &str) -> (r: Self)
        ensures
            r.placeholder is Some && r.placeholder->Some_0@ == placeholder@,
            r.id == self.id && r.disabled == self.disabled,
            r.max_values == self.max_values && r.min_values == self.min_values,
            r.options == self.options && r.on_change == self.on_change,
    {
        SelectMenu { placeholder: Some(String::from_str(placeholder)), ..self }
    }

    /// Sets the handler run when a choice is made.
    pub fn on_change(self, f: H) -> (r: Self)
        ensures
            r.on_change == Some(f),
            r.id == self.id && r.disabled == self.disabled,
            r.max_values == self.max_values && r.min_values == self.min_values,
            r.options == self.options && r.placeholder == self.placeholder,
    {
        SelectMenu { on_change: Some(f), ..self }
    }
}

impl SelectOption {
    /// An option with empty label and value.
    pub fn new() -> (r: Self)
        ensures
            !r.default,
            r.description is None,
            r.emoji is None,
            r.label@.len() == 0,
            r.value@.len() == 0,
    {
        SelectOption {
            default: false,
            description: None,
            emoji: None,
            label: String::new(),
            value: String::new(),
        }
    }

    pub fn is_default(self, default: bool) -> (r: Self)
        ensures
            r.default == default,
            r.description == self.description && r.emoji == self.emoji,
            r.label == self.label && r.value == self.value,
    {
        SelectOption { default, ..self }
    }

    pub fn description(self, description: &str) -> (r: Self)
        ensures
            r.description is Some && r.description->Some_0@ == description@,
            r.default == self.default && r.emoji == self.emoji,
            r.label == self.label && r.value == self.value,
    {
        SelectOption { description: Some(String::from_str(description)), ..self }
    }

    pub fn emoji(self, emoji: ReactionType) -> (r: Self)
        ensures
            r.emoji == Some(emoji),
            r.default == self.default && r.description == self.description,
            r.label == self.label && r.value == self.value,
    {
        SelectOption { emoji: Some(emoji), ..self }
    }

    pub fn label(self, label: &str) -> (r: Self)
        ensures
            r.label@ == label@,
            r.default == self.default && r.description == self.description,
            r.emoji == self.emoji && r.value == self.value,
    {
        SelectOption { label: String::from_str(label), ..self }
    }

    pub fn value(self, value: &str) -> (r: Self)
        ensures
            r.value@ == value@,
            r.default == self.default && r.description == self.description,
            r.emoji == self.emoji && r.label == self.label,
    {
        SelectOption { value: String::from_str(value), ..self }
    }
}

impl<H> RowButton<H> {
    /// A row never holds more than `MAX_ROW_LEN` buttons.
    #[verifier::type_invariant]
    spec fn within_capacity(self) -> bool {
        self.children@.len() <= MAX_ROW_LEN
    }

    /// The buttons held, in order.
    pub closed spec fn buttons(&self) -> Seq<Button<H>> {
        self.children@
    }

    pub open spec fn wf(&self) -> bool {
        self.buttons().len() <= MAX_ROW_LEN
    }

    pub fn new() -> (r: Self)
        ensures
            r.buttons().len() == 0,
            r.wf(),
    {
        RowButton { children: Vec::new() }
    }

    /// This row with `child` appended; fails once the row holds
    /// `MAX_ROW_LEN` buttons.
    pub fn push(self, child: Button<H>) -> (r: Result<Self, DuskError>)
        ensures
            r is Ok <==> self.buttons().len() < MAX_ROW_LEN,
            match r {
                Ok(row) => row.buttons() == self.buttons().push(child) && row.wf(),
                Err(e) => e is InvalidComponentError,
            },
    {
        if self.children.len() >= MAX_ROW_LEN {
            return Err(DuskError::InvalidComponentError(String::from_str("a row holds at most five buttons")));
        }
        let mut children = self.children;
        children.push(child);
        Ok(RowButton { children })
    }

    /// The general row holding the same buttons, which lowers identically.
    pub fn into_row(self) -> (r: Row<H>)
        ensures
            self.wf(),
            r.children@.len() == self.buttons().len(),
            r.children@.len() <= MAX_ROW_LEN,
            forall|j: int|
                0 <= j < r.children@.len() ==> #[trigger] r.children@[j] == Component::Button(
                    self.buttons()[j],
                ),
    {
        proof {
            use_type_invariant(&self);
        }
        let ghost orig = self.children@;
        let mut buttons = self.children;
        let mut children: Vec<Component<H>> = Vec::new();
        let n = buttons.len();
        let mut j: usize = 0;
        while j < n
            invariant
                orig == self.buttons(),
                n == orig.len(),
                j <= n,
                buttons@ == orig.subrange(j as int, n as int),
                children@.len() == j,
                forall|t: int| 0 <= t < j ==> #[trigger] children@[t] == Component::Button(orig[t]),
            decreases n - j,
        {
            let b = buttons.remove(0);
            assert(b == orig[j as int]);
            children.push(Component::Button(b));
            j = j + 1;
        }
        Row { children }
    }
}

/// The identifiers of a lowered row, in order.
pub open spec fn control_ids(a: ActionRow) -> Seq<Seq<char>> {
    a.components@.map_values(|c: Control| c.spec_custom_id())
}

/// The identifiers of the first `n` lowered rows, in order.
pub open spec fn rows_ids(rows: Seq<ActionRow>, n: nat) -> Seq<Seq<char>>
    decreases n,
{
    if n == 0 {
        seq![]
    } else {
        rows_ids(rows, (n - 1) as nat) + control_ids(rows[n - 1])
    }
}

proof fn lemma_row_ids_index<H>(children: Seq<Component<H>>, scope: Seq<char>, n: nat)
    ensures
        forall|j: int|
            0 <= j < n ==> #[trigger] row_ids(children, scope, n)[j] == qualify(
                sub_scope(scope, j as nat),
                children[j].spec_id(),
            ),
    decreases n,
{
    if n > 0 {
        lemma_row_ids_index(children, scope, (n - 1) as nat);
        lemma_row_ids_len(children, scope, (n - 1) as nat);
    }
}

proof fn lemma_root_control_ids<H>(r: RootComponent<H>, index: nat, a: ActionRow)
    requires
        r.lowers_to(index, a),
    ensures
        control_ids(a) == r.ids_at(index),
{
    match r {
        RootComponent::Row(row) => {
            let scope = decimal(index);
            lemma_row_ids_index(row.children@, scope, row.children@.len());
            lemma_row_ids_len(row.children@, scope, row.children@.len());
            assert forall|j: int| 0 <= j < control_ids(a).len() implies control_ids(a)[j]
                == r.ids_at(index)[j] by {
                assert(row.children@[j].lowers_to(sub_scope(scope, j as nat), a.components@[j]));
            }
            assert(control_ids(a) =~= r.ids_at(index));
        },
        RootComponent::SelectMenu(m) => {
            assert(control_ids(a) =~= r.ids_at(index));
        },
    }
}

proof fn lemma_rows_ids<H>(roots: Seq<RootComponent<H>>, rows: Seq<ActionRow>, n: nat)
    requires
        n <= roots.len(),
        rows.len() == roots.len(),
        forall|i: int| #![trigger rows[i]] 0 <= i < rows.len() ==> roots[i].lowers_to(i as nat, rows[i]),
    ensures
        rows_ids(rows, n) == window_ids(roots, n),
    decreases n,
{
    if n > 0 {
        lemma_rows_ids(roots, rows, (n - 1) as nat);
        let i = n - 1;
        assert(roots[i].lowers_to(i as nat, rows[i]));
        lemma_root_control_ids(roots[i], i as nat, rows[i]);
    }
}

/// Every render pass that succeeds sends pairwise distinct identifiers: the
/// identifiers of the lowered rows are exactly those of the tree, which the
/// pass checked.
pub proof fn lemma_rendered_ids_distinct<H>(w: CompWindow<H>, rows: Seq<ActionRow>)
    requires
        w.lowers_to(rows),
        valid_ids(w.ids()),
    ensures
        rows_ids(rows, rows.len()) == w.ids(),
        rows_ids(rows, rows.len()).no_duplicates(),
{
    lemma_rows_ids(w.children@, rows, rows.len());
}

impl<H> Default for Button<H> {
    /// A primary-style button with empty identifier and no label.
    fn default() -> (r: Self)
        ensures
            r.id@.len() == 0,
            !r.disabled,
            r.emoji is None,
            r.label is None,
            r.style == ButtonStyle::Primary,
            r.url is None,
            r.on_click is None,
    {
        Button {
            id: String::new(),
            disabled: false,
            emoji: None,
            label: None,
            style: ButtonStyle::Primary,
            url: None,
            on_click: None,
        }
    }
}

impl<H> Default for SelectMenu<H> {
    /// An empty menu with empty identifier.
    fn default() -> (r: Self)
        ensures
            r.id@.len() == 0,
            !r.disabled,
            r.max_values is None,
            r.min_values is None,
            r.options@.len() == 0,
            r.placeholder is None,
            r.on_change is None,
    {
        SelectMenu {
            id: String::new(),
            disabled: false,
            max_values: None,
            min_values: None,
            options: Vec::new(),
            placeholder: None,
            on_change: None,
        }
    }
}

impl Default for SelectOption {
    fn default() -> (r: Self)
        ensures
            !r.default,
            r.description is None,
            r.emoji is None,
            r.label@.len() == 0,
            r.value@.len() == 0,
    {
        SelectOption::new()
    }
}

proof fn lemma_keys_within<H>(
    before: BindingTable<H>,
    after: BindingTable<H>,
    seen: Seq<Seq<char>>,
    q: Seq<char>,
    added: Seq<(Seq<char>, H)>,
)
    requires
        forall|k: Seq<char>| #[trigger] before.keys().contains(k) ==> seen.contains(k),
        after@ == before@ + added,
        forall|i: int| 0 <= i < added.len() ==> (#[trigger] added[i]).0 == q,
    ensures
        forall|k: Seq<char>| #[trigger] after.keys().contains(k) ==> seen.push(q).contains(k),
{
    let ids = seen.push(q);
    assert forall|k: Seq<char>| #[trigger] after.keys().contains(k) implies ids.contains(k) by {
        let i = choose|i: int| 0 <= i < after.keys().len() && after.keys()[i] == k;
        if i < before@.len() {
            assert(before.keys()[i] == k);
            assert(before.keys().contains(k));
            let t = choose|t: int| 0 <= t < seen.len() && seen[t] == k;
            assert(ids[t] == k);
        } else {
            assert(added[i - before@.len()].0 == k);
            assert(ids[seen.len() as int] == q);
        }
    }
}

proof fn lemma_prefix_trans<A>(a: Seq<A>, b: Seq<A>, c: Seq<A>)
    requires
        a.is_prefix_of(b),
        b.is_prefix_of(c),
    ensures
        a.is_prefix_of(c),
{
    assert forall|k: int| 0 <= k < a.len() implies a[k] == c[k] by {
        assert(a[k] == b.subrange(0, a.len() as int)[k]);
        assert(b[k] == c.subrange(0, b.len() as int)[k]);
    }
    assert(a =~= c.subrange(0, a.len() as int));
}

proof fn lemma_prefix_append<A>(a: Seq<A>, b: Seq<A>)
    ensures
        a.is_prefix_of(a + b),
{
    assert(a =~= (a + b).subrange(0, a.len() as int));
}

proof fn lemma_prefix_extend<A>(p: Seq<A>, a: Seq<A>, b: Seq<A>)
    requires
        a.is_prefix_of(b),
    ensures
        (p + a).is_prefix_of(p + b),
{
    assert forall|k: int| 0 <= k < a.len() implies a[k] == b[k] by {
        assert(a[k] == b.subrange(0, a.len() as int)[k]);
    }
    assert(p + a =~= (p + b).subrange(0, (p + a).len() as int));
}

proof fn lemma_row_bindings_prefix<H>(children: Seq<Component<H>>, scope: Seq<char>, j: nat, n: nat)
    requires
        j <= n,
    ensures
        row_bindings(children, scope, j).is_prefix_of(row_bindings(children, scope, n)),
    decreases n,
{
    if n > j {
        lemma_row_bindings_prefix(children, scope, j, (n - 1) as nat);
        let m = (n - 1) as nat;
        lemma_prefix_append(
            row_bindings(children, scope, m),
            children[m as int].binding_in(sub_scope(scope, m)),
        );
        lemma_prefix_trans(
            row_bindings(children, scope, j),
            row_bindings(children, scope, m),
            row_bindings(children, scope, n),
        );
    } else {
        assert(row_bindings(children, scope, j) =~= row_bindings(children, scope, n).subrange(
            0,
            row_bindings(children, scope, j).len() as int,
        ));
    }
}

proof fn lemma_window_bindings_prefix<H>(roots: Seq<RootComponent<H>>, i: nat, n: nat)
    requires
        i <= n,
    ensures
        window_bindings(roots, i).is_prefix_of(window_bindings(roots, n)),
    decreases n,
{
    if n > i {
        lemma_window_bindings_prefix(roots, i, (n - 1) as nat);
        let m = (n - 1) as nat;
        lemma_prefix_append(window_bindings(roots, m), roots[m as int].bindings_at(m));
        lemma_prefix_trans(window_bindings(roots, i), window_bindings(roots, m), window_bindings(roots, n));
    } else {
        assert(window_bindings(roots, i) =~= window_bindings(roots, n).subrange(
            0,
            window_bindings(roots, i).len() as int,
        ));
    }
}

/// Whether `id` is among `seen`.
fn contains_id(seen: &Vec<String>, id: &String) -> (r: bool)
    ensures
        r == views(seen@).contains(id@),
{
    let mut i: usize = 0;
    while i < seen.len()
        invariant
            i <= seen@.len(),
            forall|j: int| 0 <= j < i ==> views(seen@)[j] != id@,
        decreases seen@.len() - i,
    {
        if seen[i] == *id {
            assert(views(seen@)[i as int] == id@);
            return true;
        }
        i = i + 1;
    }
    false
}

} // verus!
