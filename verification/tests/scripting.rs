use mellow::model::hakuid::HakuId;
use mellow::server::logging::ServerLog;
use mellow::visual_scripting::action_tracker::{ActionTracker, ActionTrackerItem};
use mellow::visual_scripting::document::{Document, ServerCommand};
use mellow::visual_scripting::element::{
    evaluate_block, Condition, CreateMessageData, Element, ElementKind, ElementReferenceValue, Statement,
    StatementBlock, StatementCondition, StatementConditionKind, StatementStream, Text, TextComponent,
};
use mellow::visual_scripting::process::{element_is_defined, plan_element, try_plan_element, ElementAction};
use mellow::visual_scripting::stream::ElementStream;
use mellow::visual_scripting::variable::{Variable, VariableInterpretAs, VariableKind, VariableReference};

fn text(s: &str) -> Variable {
    Variable::from(s.to_string())
}

fn reference(path: &str) -> VariableReference {
    VariableReference::new(path.to_string())
}

fn member(id: &str, guild_id: &str) -> Variable {
    Variable::create_map(
        vec![("id".to_string(), text(id)), ("guild_id".to_string(), text(guild_id))],
        Some(VariableInterpretAs::Member),
    )
}

fn message() -> Variable {
    Variable::create_map(
        vec![
            ("id".to_string(), text("900")),
            ("channel_id".to_string(), text("800")),
            ("author".to_string(), Variable::create_map(vec![("id".to_string(), text("55"))], None)),
        ],
        Some(VariableInterpretAs::Message),
    )
}

fn vars() -> Variable {
    Variable::create_map(
        vec![
            ("member".to_string(), member("42", "7")),
            ("message".to_string(), message()),
            ("guild_id".to_string(), text("7")),
            ("interaction_token".to_string(), text("tok")),
            ("name".to_string(), text("mellow")),
            ("count".to_string(), Variable::from(3u64)),
        ],
        None,
    )
}

fn value(path: &str, value: &str) -> ElementReferenceValue {
    ElementReferenceValue { reference: reference(path), value: value.to_string() }
}

fn condition(condition: Condition, inputs: &[&str], kind: StatementConditionKind) -> StatementCondition {
    StatementCondition { condition, inputs: inputs.iter().map(|x| reference(x)).collect(), kind }
}

fn nothing() -> Element {
    Element { kind: ElementKind::Nothing }
}

fn greeting() -> Text {
    Text {
        components: vec![
            TextComponent::Value("hi ".to_string()),
            TextComponent::Variable(reference("name")),
            TextComponent::Value(" ".to_string()),
            TextComponent::Variable(reference("count")),
            TextComponent::Variable(reference("missing")),
        ],
    }
}

#[test]
fn text_reads_its_variables() {
    assert_eq!(greeting().resolve(&vars()), "hi mellow 3");
}

#[test]
fn ban_and_kick_read_the_member() {
    match plan_element(&ElementKind::BanMember(reference("member")), &vars()) {
        ElementAction::Ban { guild_id, user_id } => assert_eq!((guild_id, user_id), (7, 42)),
        other => panic!("{other:?}"),
    }
    let kick = plan_element(&ElementKind::KickMember(reference("member")), &vars());
    assert!(matches!(kick, ElementAction::Kick { guild_id: 7, user_id: 42 }));
    assert!(kick.stops());
    assert!(matches!(plan_element(&ElementKind::BanMember(reference("nobody")), &vars()), ElementAction::Skip));
}

#[test]
fn role_elements_parse_the_role() {
    match plan_element(&ElementKind::AssignRoleToMember(value("member", "123")), &vars()) {
        ElementAction::AssignRole { guild_id, user_id, role_id, role } => {
            assert_eq!((guild_id, user_id, role_id, role.as_str()), (7, 42, 123, "123"));
        },
        other => panic!("{other:?}"),
    }
    let bad = plan_element(&ElementKind::RemoveRoleFromMember(value("member", "abc")), &vars());
    assert!(matches!(bad, ElementAction::InvalidNumber));
    assert!(!bad.stops());
}

#[test]
fn reactions_split_custom_emoji() {
    match plan_element(&ElementKind::AddReaction(value("message", "blob:12345")), &vars()) {
        ElementAction::AddCustomReaction { channel_id, message_id, name, emoji_id } => {
            assert_eq!((channel_id, message_id, name.as_str(), emoji_id), (800, 900, "blob", 12345));
        },
        other => panic!("{other:?}"),
    }
    match plan_element(&ElementKind::AddReaction(value("message", "a:7:b")), &vars()) {
        ElementAction::AddCustomReaction { name, emoji_id, .. } => assert_eq!((name.as_str(), emoji_id), ("a", 7)),
        other => panic!("{other:?}"),
    }
    match plan_element(&ElementKind::AddReaction(value("message", "👍")), &vars()) {
        ElementAction::AddUnicodeReaction { name, .. } => assert_eq!(name, "👍"),
        other => panic!("{other:?}"),
    }
    assert!(matches!(
        plan_element(&ElementKind::AddReaction(value("message", "blob:x")), &vars()),
        ElementAction::InvalidNumber
    ));
}

#[test]
fn message_elements() {
    let create = ElementKind::CreateMessage(CreateMessageData { channel_id: reference("message::channel_id"), content: greeting() });
    match plan_element(&create, &vars()) {
        ElementAction::CreateMessage { channel_id, content } => assert_eq!((channel_id, content.as_str()), (800, "hi mellow 3")),
        other => panic!("{other:?}"),
    }
    match plan_element(&ElementKind::Reply(value("message", "pong")), &vars()) {
        ElementAction::Reply { channel_id, message_id, content } => {
            assert_eq!((channel_id, message_id, content.as_str()), (800, 900, "pong"))
        },
        other => panic!("{other:?}"),
    }
    match plan_element(&ElementKind::DeleteMessage(reference("message")), &vars()) {
        ElementAction::DeleteMessage { channel_id, message_id, author_id } => {
            assert_eq!((channel_id, message_id, author_id.as_str()), (800, 900, "55"))
        },
        other => panic!("{other:?}"),
    }
    let thread = ElementKind::StartThreadFromMessage { name: greeting(), message: reference("message") };
    match plan_element(&thread, &vars()) {
        ElementAction::StartThread { channel_id, message_id, name } => {
            assert_eq!((channel_id, message_id, name.as_str()), (800, 900, "hi mellow 3"))
        },
        other => panic!("{other:?}"),
    }
}

#[test]
fn elements_reading_the_root_variables() {
    assert!(matches!(plan_element(&ElementKind::SyncMember, &vars()), ElementAction::SyncMember { guild_id: 7, user_id: 42 }));
    assert!(matches!(
        plan_element(&ElementKind::GetLinkedPatreonCampaign, &vars()),
        ElementAction::GetLinkedPatreonCampaign { guild_id: 7 }
    ));
    match plan_element(&ElementKind::InteractionReply(greeting()), &vars()) {
        ElementAction::InteractionReply { token, content } => assert_eq!((token.as_str(), content.as_str()), ("tok", "hi mellow 3")),
        other => panic!("{other:?}"),
    }
    assert!(matches!(plan_element(&ElementKind::Nothing, &vars()), ElementAction::Skip));
}

#[test]
fn conditions_chain_with_and_and_or() {
    let holds = StatementBlock {
        items: vec![],
        conditions: vec![
            condition(Condition::Is, &["member::id", "member::id"], StatementConditionKind::Initial),
            condition(Condition::HasAnyValue, &["name"], StatementConditionKind::And),
        ],
    };
    assert!(evaluate_block(&holds, &vars()));
    let fails = StatementBlock {
        items: vec![],
        conditions: vec![
            condition(Condition::IsNot, &["member::id", "member::id"], StatementConditionKind::Initial),
            condition(Condition::HasAnyValue, &["name"], StatementConditionKind::And),
        ],
    };
    assert!(!evaluate_block(&fails, &vars()));
    let either = StatementBlock {
        items: vec![],
        conditions: vec![
            condition(Condition::BeginsWith, &["name", "member::id"], StatementConditionKind::Initial),
            condition(Condition::EndsWith, &["name", "guild_id"], StatementConditionKind::Or),
            condition(Condition::Contains, &["name", "name"], StatementConditionKind::Or),
        ],
    };
    assert!(evaluate_block(&either, &vars()));
    let empty = StatementBlock { items: vec![], conditions: vec![] };
    assert!(!evaluate_block(&empty, &vars()));
}

#[test]
fn statement_stream_takes_the_first_block_that_holds() {
    let blocks = vec![
        StatementBlock { items: vec![], conditions: vec![condition(Condition::DoesNotHaveAnyValue, &["name"], StatementConditionKind::Initial)] },
        StatementBlock { items: vec![nothing()], conditions: vec![condition(Condition::HasAnyValue, &["name"], StatementConditionKind::Initial)] },
        StatementBlock { items: vec![nothing(), nothing()], conditions: vec![condition(Condition::HasAnyValue, &["name"], StatementConditionKind::Initial)] },
    ];
    let mut stream = StatementStream::new(blocks, vars());
    let first = stream.get_next().unwrap();
    assert_eq!(first.items.len(), 1);
    assert!(stream.get_next().is_none());
}

#[test]
fn element_stream_runs_in_order_and_enters_blocks() {
    let statement = Statement {
        blocks: vec![StatementBlock {
            items: vec![Element { kind: ElementKind::SyncMember }],
            conditions: vec![condition(Condition::HasAnyValue, &["name"], StatementConditionKind::Initial)],
        }],
    };
    let elements = vec![
        Element { kind: ElementKind::BanMember(reference("member")) },
        Element { kind: ElementKind::IfStatement(statement) },
        nothing(),
    ];
    let mut stream = ElementStream::new(elements, vars());
    assert!(matches!(stream.next().unwrap().kind, ElementKind::BanMember(_)));
    assert!(matches!(stream.next().unwrap().kind, ElementKind::SyncMember));
    assert!(matches!(stream.next().unwrap().kind, ElementKind::Nothing));
    assert!(stream.next().is_none());
    assert!(stream.next().is_none());
}

#[test]
fn stream_variables_can_be_written() {
    let mut stream = ElementStream::new(vec![], vars());
    stream.set_variable("campaign", Variable::from(1u64));
    assert!(matches!(stream.variables().get("campaign").kind, VariableKind::UnsignedInteger(1)));
}

#[test]
fn tracker_records_what_was_done() {
    let mut tracker = ActionTracker::new("doc".to_string());
    tracker.record(&ElementAction::Ban { guild_id: 7, user_id: 42 }, 0);
    tracker.record(&ElementAction::CreateMessage { channel_id: 800, content: String::new() }, 901);
    tracker.record(&ElementAction::Skip, 0);
    tracker.record(&ElementAction::InteractionReply { token: String::new(), content: String::new() }, 0);
    assert!(tracker.replied);
    assert_eq!(tracker.items().len(), 2);
    assert!(matches!(&tracker.items()[0], ActionTrackerItem::BannedMember(u) if u == "42"));
    assert!(matches!(tracker.items()[1], ActionTrackerItem::CreatedMessage(800, 901)));
    match tracker.into_log() {
        Some(ServerLog::VisualScriptingDocumentResult { items, document_name }) => {
            assert_eq!(items.len(), 2);
            assert_eq!(document_name, "doc");
        },
        _ => panic!("no log"),
    }
    assert!(ActionTracker::new("empty".to_string()).into_log().is_none());
}

#[test]
fn documents_run_when_active_and_not_empty() {
    let doc = |active: bool, n: usize| Document {
        id: HakuId::new(1),
        name: "d".to_string(),
        active,
        definition: (0..n).map(|_| nothing()).collect(),
    };
    assert!(doc(true, 1).is_ready_for_stream());
    assert!(!doc(false, 1).is_ready_for_stream());
    assert!(!doc(true, 0).is_ready_for_stream());
    let command = ServerCommand { document: doc(true, 2), is_ephemeral: true };
    assert!(command.is_ephemeral);
}

#[test]
fn member_variables_carry_the_member() {
    let v = Variable::from_member_parts(42, &vec![1, 2], 7, "user", Some("abc"), None);
    assert_eq!(v.interpret_as, VariableInterpretAs::Member);
    assert_eq!(v.get("id").cast_str(), "42");
    assert_eq!(v.get("guild_id").cast_str(), "7");
    assert_eq!(v.get("display_name").cast_str(), "user");
    assert_eq!(v.get("avatar_url").cast_str(), "https://cdn.discordapp.com/avatars/42/abc.webp");
    assert!(v.get("roles").contains(&text("2")));
    let u = Variable::from_member_update(42, &vec![], 7, "user", None, Some("def"), Some("Global"));
    assert_eq!(u.get("avatar_url").cast_str(), "https://cdn.discordapp.com/avatars/42/def.webp");
    assert_eq!(u.get("display_name").cast_str(), "Global");
    let user = Variable::from_user_parts(5, "five", None, None);
    assert_eq!(user.get("avatar_url").cast_str(), "");
    let m = Variable::from_message_parts(9, user, "hey", 8);
    assert_eq!(m.interpret_as, VariableInterpretAs::Message);
    assert_eq!(m.get("author").get("username").cast_str(), "five");
    assert_eq!(m.get("channel_id").cast_str(), "8");
}

#[test]
fn element_names() {
    assert_eq!(ElementKind::SyncMember.display_name(), "Sync Member");
    assert_eq!(ElementKind::BanMember(reference("m")).display_name(), "Ban Member");
}

#[test]
fn elements_that_would_panic_are_refused() {
    assert!(element_is_defined(&ElementKind::BanMember(reference("member")), &vars()));
    assert!(!element_is_defined(&ElementKind::BanMember(reference("message")), &vars()));
    assert!(try_plan_element(&ElementKind::KickMember(reference("name")), &vars()).is_none());
    assert!(try_plan_element(&ElementKind::AssignRoleToMember(value("member", "0")), &vars()).is_none());
    assert!(try_plan_element(&ElementKind::AddReaction(value("message", "x:0")), &vars()).is_none());
    assert!(try_plan_element(&ElementKind::BanMember(reference("member::id::0")), &vars()).is_some());
    let no_token = Variable::create_map(vec![], None);
    assert!(try_plan_element(&ElementKind::InteractionReply(greeting()), &no_token).is_none());
    assert!(matches!(try_plan_element(&ElementKind::SyncMember, &vars()), Some(ElementAction::SyncMember { .. })));
}

#[test]
fn documents_stop_at_errors_bans_and_kicks() {
    let mut tracker = ActionTracker::new("doc".to_string());
    assert!(tracker.after_element(ElementKind::Nothing, &ElementAction::Skip, Ok(0)));
    assert!(tracker.after_element(
        ElementKind::Nothing,
        &ElementAction::CreateMessage { channel_id: 800, content: String::new() },
        Ok(901)
    ));
    assert!(!tracker.after_element(ElementKind::SyncMember, &ElementAction::Ban { guild_id: 7, user_id: 42 }, Ok(0)));
    assert!(!tracker.after_element(ElementKind::SyncMember, &ElementAction::Kick { guild_id: 7, user_id: 43 }, Ok(0)));
    assert!(!tracker.after_element(ElementKind::SyncMember, &ElementAction::Skip, Err("failed".to_string())));
    assert_eq!(tracker.items().len(), 4);
    assert!(matches!(tracker.items()[0], ActionTrackerItem::CreatedMessage(800, 901)));
    assert!(matches!(&tracker.items()[3], ActionTrackerItem::Error(ElementKind::SyncMember, m) if m == "failed"));
}
