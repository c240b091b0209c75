use dusk::binding::BindingTable;
use dusk::component::{
    ActionRow, Button, ButtonStyle, CompWindow, Component, Control, Row, RootComponent, RowButton,
    SelectMenu, SelectOption,
};
use dusk::context::{BuildContext, Context};
use dusk::dusk::Dusk;
use dusk::errors::DuskError;
use dusk::ident::{decimal_string, random_id, BuildContextPrefix, MAX_CUSTOM_ID_LEN};
use dusk::window::{draw_components, Publish, Session};
use dusk::window::draw_text;

type Handler = Box<dyn Fn(&mut Context, u32) -> u32>;

fn custom_id(c: &Control) -> String {
    match c {
        Control::Button(b) => b.custom_id.clone(),
        Control::SelectMenu(m) => m.custom_id.clone(),
    }
}

fn next_window(_: &u32) -> CompWindow<Handler> {
    let next: Handler = Box::new(|ctx: &mut Context, n: u32| {
        ctx.finish();
        n + 1
    });
    let row = Row::new().add(Component::Button(Button::new("Next").id("next").on_click(next)));
    CompWindow::new().add(RootComponent::Row(row))
}

#[test]
fn next_button_session() {
    let mut build: BuildContext<Handler> = BuildContext::new();
    let mut dusk = Dusk::new();
    let mut session = Session::new();
    let mut data: u32 = 1;
    let mut publishes = 0;

    while !build.ctx.should_exit {
        session.begin_pass(&mut dusk);
        let text = draw_text(&data, &|d: &u32| Some(format!("page {}", d)));
        let rows = draw_components(&mut build.binding, &data, &next_window).unwrap();
        assert_eq!(rows.len(), 1);
        assert_eq!(rows[0].components.len(), 1);
        let id = custom_id(&rows[0].components[0]);
        assert_eq!(id, "0:0.next");
        assert_eq!(build.binding.len(), 1);

        let plan = session.plan_publish(&mut build.ctx, text);
        assert!(matches!(plan, Publish::Create { .. }));
        publishes += 1;
        session.published(42);
        dusk.register(42, 7).unwrap();
        assert!(dusk.is_waiting(42));

        assert_eq!(dusk.deliver(true, Some(42)), Some(7));

        let handler = build.binding.resolve(&id).expect("bound");
        data = handler(&mut build.ctx, data);
    }
    assert_eq!(data, 2);
    assert_eq!(publishes, 1);
}

#[test]
fn sessions_do_not_cross() {
    let mut dusk = Dusk::new();
    dusk.register(10, 1).unwrap();
    dusk.register(20, 2).unwrap();

    assert_eq!(dusk.deliver(true, Some(10)), Some(1));
    assert!(!dusk.is_waiting(10));
    assert!(dusk.is_waiting(20));
    assert_eq!(dusk.deliver(true, Some(10)), None);
    assert_eq!(dusk.deliver(true, Some(20)), Some(2));
    assert!(!dusk.is_waiting(20));
}

#[test]
fn distinct_deliveries_reach_their_own_waiters() {
    let mut dusk = Dusk::new();
    for m in 0..5u64 {
        dusk.register(100 + m, 50 + m).unwrap();
    }
    for m in [3u64, 0, 4, 1, 2] {
        assert_eq!(dusk.deliver(true, Some(100 + m)), Some(50 + m));
    }
    for m in 0..5u64 {
        assert!(!dusk.is_waiting(100 + m));
    }
}

#[test]
fn suppressed_render_reuses_message() {
    let mut dusk = Dusk::new();
    let mut ctx = Context::new();
    let mut session = Session::new();
    let first = session.plan_publish(&mut ctx, Some("a".to_string()));
    assert!(matches!(first, Publish::Create { text: Some(ref t) } if t == "a"));
    session.published(5);
    dusk.register(5, 9).unwrap();

    ctx.dont_update();
    session.begin_pass(&mut dusk);
    assert!(!dusk.is_waiting(5));
    let second = session.plan_publish(&mut ctx, Some("b".to_string()));
    assert!(matches!(second, Publish::Reuse { message_id: 5 }));
    assert!(!ctx.dont_update);
    assert!(dusk.register(5, 9).is_ok());
    assert!(dusk.is_waiting(5));
    assert_eq!(dusk.deliver(true, Some(5)), Some(9));
}

#[test]
fn same_text_is_not_resent() {
    let mut ctx = Context::new();
    let mut session = Session::new();
    session.plan_publish(&mut ctx, Some("hello".to_string()));
    session.published(1);
    let again = session.plan_publish(&mut ctx, Some("hello".to_string()));
    assert!(matches!(again, Publish::Update { message_id: 1, text: None }));
    let changed = session.plan_publish(&mut ctx, Some("bye".to_string()));
    assert!(matches!(changed, Publish::Update { message_id: 1, text: Some(ref t) } if t == "bye"));
    let unchanged = session.plan_publish(&mut ctx, None);
    assert!(matches!(unchanged, Publish::Update { message_id: 1, text: None }));
    assert_eq!(session.last_text.as_deref(), Some("bye"));
}

#[test]
fn rendered_ids_are_distinct() {
    let row = Row::new()
        .add(Component::Button(Button::new("a").id("x")))
        .add(Component::Button(Button::new("b").id("x").on_click(7u8)));
    let menu = SelectMenu::new().id("x").on_change(9u8);
    let mut binding: BindingTable<u8> = BindingTable::new();
    let rows: Vec<ActionRow> = CompWindow::new()
        .add(RootComponent::Row(row))
        .add(RootComponent::SelectMenu(menu))
        .build(&mut binding)
        .unwrap();
    let ids: Vec<String> = rows.iter().flat_map(|r| r.components.iter().map(custom_id)).collect();
    assert_eq!(ids, vec!["0:0.x", "0:1.x", "1.x"]);
    assert_eq!(binding.len(), 2);
    assert_eq!(binding.resolve(&"0:1.x".to_string()), Some(&7u8));
    assert_eq!(binding.resolve(&"1.x".to_string()), Some(&9u8));
    assert_eq!(binding.resolve(&"0:0.x".to_string()), None);
}

#[test]
fn duplicate_id_fails_construction() {
    let scope = BuildContextPrefix::root(0);
    let mut seen = vec!["0.dup".to_string()];
    let mut binding: BindingTable<u8> = BindingTable::new();
    let r = Component::Button(Button::new("a").id("dup").on_click(1u8)).build(&scope, &mut seen, &mut binding);
    assert!(matches!(r, Err(DuskError::DuplicateCustomId(ref s)) if s == "0.dup"));
    assert_eq!(binding.len(), 0);
}

#[test]
fn overlong_id_fails_construction() {
    let long = "y".repeat(MAX_CUSTOM_ID_LEN);
    let mut binding: BindingTable<u8> = BindingTable::new();
    let r = CompWindow::new()
        .add(RootComponent::SelectMenu(SelectMenu::new().id(&long)))
        .build(&mut binding);
    assert!(matches!(r, Err(DuskError::CustomIdTooLong(ref s)) if s.len() == MAX_CUSTOM_ID_LEN + 2));

    let fits = "y".repeat(MAX_CUSTOM_ID_LEN - 2);
    let ok = CompWindow::new()
        .add(RootComponent::SelectMenu(SelectMenu::<u8>::new().id(&fits)))
        .build(&mut binding);
    assert!(ok.is_ok());
}

#[test]
fn select_menu_root_is_wrapped_in_a_row() {
    let option = SelectOption::new().label("One").value("1").description("first").is_default(true);
    let menu = SelectMenu::<u8>::new()
        .id("pick")
        .options(vec![option])
        .placeholder("choose")
        .min_values(1)
        .max_values(1)
        .disabled(true);
    let mut binding = BindingTable::new();
    let rows = CompWindow::new().add(RootComponent::SelectMenu(menu)).build(&mut binding).unwrap();
    assert_eq!(rows.len(), 1);
    assert_eq!(rows[0].components.len(), 1);
    match &rows[0].components[0] {
        Control::SelectMenu(m) => {
            assert_eq!(m.custom_id, "0.pick");
            assert!(m.disabled);
            assert_eq!(m.min_values, Some(1));
            assert_eq!(m.max_values, Some(1));
            assert_eq!(m.placeholder.as_deref(), Some("choose"));
            assert_eq!(m.options.len(), 1);
            assert_eq!(m.options[0].label, "One");
            assert_eq!(m.options[0].value, "1");
            assert_eq!(m.options[0].description.as_deref(), Some("first"));
            assert!(m.options[0].default);
        }
        Control::Button(_) => panic!("expected a select menu"),
    }
    assert_eq!(binding.len(), 0);
}

#[test]
fn button_fields_carry_over() {
    let b = Button::<u8>::new("Go").id("go").style(ButtonStyle::Danger).url("https://example.org").disabled(true).label("Stop");
    let mut binding = BindingTable::new();
    let rows = CompWindow::new()
        .add(RootComponent::Row(Row::new().add(Component::Button(b))))
        .build(&mut binding)
        .unwrap();
    match &rows[0].components[0] {
        Control::Button(x) => {
            assert_eq!(x.custom_id, "0:0.go");
            assert_eq!(x.style, ButtonStyle::Danger);
            assert_eq!(x.label.as_deref(), Some("Stop"));
            assert_eq!(x.url.as_deref(), Some("https://example.org"));
            assert!(x.disabled);
            assert!(x.emoji.is_none());
        }
        Control::SelectMenu(_) => panic!("expected a button"),
    }
}

#[test]
fn row_button_holds_five() {
    let mut row: RowButton<u8> = RowButton::new();
    for i in 0..5 {
        row = row.push(Button::new("b").id(&format!("b{}", i))).unwrap();
    }
    assert!(matches!(row.push(Button::new("six")), Err(DuskError::InvalidComponentError(_))));

    let mut row: RowButton<u8> = RowButton::new();
    row = row.push(Button::new("a").id("a")).unwrap();
    row = row.push(Button::new("b").id("b").on_click(3)).unwrap();
    let mut binding = BindingTable::new();
    let rows = CompWindow::new()
        .add(RootComponent::Row(Row::new()))
        .add(RootComponent::Row(row.into_row()))
        .build(&mut binding)
        .unwrap();
    assert_eq!(rows[0].components.len(), 0);
    let ids: Vec<String> = rows[1].components.iter().map(custom_id).collect();
    assert_eq!(ids, vec!["1:0.a", "1:1.b"]);
    assert_eq!(binding.resolve(&"1:1.b".to_string()), Some(&3u8));
}

#[test]
fn scopes_and_decimals() {
    assert_eq!(decimal_string(0), "0");
    assert_eq!(decimal_string(7), "7");
    assert_eq!(decimal_string(1234), "1234");
    let root = BuildContextPrefix::root(12);
    assert_eq!(root.prefix, "12");
    let sub = root.sub(3);
    assert_eq!(sub.prefix, "12:3");
    assert_eq!(sub.qualify(&"id".to_string()), "12:3.id");
}

#[test]
fn generated_ids_are_alphanumeric() {
    let id = random_id();
    assert_eq!(id.chars().count(), 7);
    assert!(id.chars().all(|c| c.is_ascii_alphanumeric()));
    let b = Button::<u8>::new("x");
    assert_eq!(b.id.len(), 7);
    assert!(b.id.chars().all(|c| c.is_ascii_alphanumeric()));
    assert_eq!(b.label.as_deref(), Some("x"));
    assert_eq!(b.style, ButtonStyle::Primary);
}

#[test]
fn unmatched_delivery_is_inert() {
    let mut dusk = Dusk::new();
    dusk.register(3, 30).unwrap();
    assert_eq!(dusk.deliver(false, Some(3)), None);
    assert_eq!(dusk.deliver(true, None), None);
    assert_eq!(dusk.deliver(true, Some(4)), None);
    assert!(dusk.is_waiting(3));
    assert_eq!(dusk.deliver(true, Some(3)), Some(30));
    assert_eq!(dusk.deliver(true, Some(3)), None);
}

#[test]
fn second_waiter_on_live_message_is_refused() {
    let mut dusk = Dusk::new();
    assert!(dusk.register(8, 1).is_ok());
    assert!(matches!(dusk.register(8, 2), Err(DuskError::WaiterExists(8))));
    assert_eq!(dusk.discard(8), Some(1));
    assert_eq!(dusk.discard(8), None);
}

#[test]
fn failed_pass_keeps_earlier_bindings() {
    let long = "z".repeat(MAX_CUSTOM_ID_LEN);
    let row = Row::new()
        .add(Component::Button(Button::new("a").id("a").on_click(1u8)))
        .add(Component::Button(Button::new("b").id(&long).on_click(2u8)));
    let mut binding = BindingTable::new();
    let r = CompWindow::new().add(RootComponent::Row(row)).build(&mut binding);
    assert!(matches!(r, Err(DuskError::CustomIdTooLong(_))));
    assert_eq!(binding.len(), 1);
    assert_eq!(binding.resolve(&"0:0.a".to_string()), Some(&1u8));
}

#[test]
fn context_flags() {
    let mut ctx = Context::new();
    assert!(!ctx.should_exit && !ctx.dont_update);
    ctx.dont_update();
    assert!(ctx.take_dont_update());
    assert!(!ctx.take_dont_update());
    ctx.finish();
    assert!(ctx.should_exit);
}

#[test]
fn defaults_are_empty() {
    let b: Button<u8> = Button::default();
    assert_eq!(b.id, "");
    assert!(b.label.is_none() && b.on_click.is_none());
    let m: SelectMenu<u8> = SelectMenu::default();
    assert_eq!(m.id, "");
    assert!(m.options.is_empty());
    let o = SelectOption::default();
    assert!(o.label.is_empty() && o.value.is_empty() && !o.default);
    let p = dusk::context::BuildContextPrefix::root(0);
    assert_eq!(p.prefix, "0");
}
