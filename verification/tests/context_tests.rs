use rs_ctx::{
    background, first_error, readable_types, settle, with_cancel, with_deadline, with_timeout, with_value, Context,
    ContextError, ContextImpl, DoneReason, TypedKey,
};
use std::any::{Any, TypeId};
use std::sync::Arc;
use std::time::{Duration, Instant};

type Value = Arc<dyn Any + Send + Sync>;

fn key_of<K: serde::Serialize + 'static>(key: &K) -> TypedKey {
    TypedKey::new(bincode::serialize(key).unwrap(), TypeId::of::<K>())
}

fn put<K: serde::Serialize + 'static, V: Any + Send + Sync>(parent: &Context<Value>, key: K, value: V) -> Context<Value> {
    with_value(parent, key_of(&key), TypeId::of::<V>(), Arc::new(value) as Value)
}

fn get<K: serde::Serialize + 'static, V: Any + Clone>(ctx: &ContextImpl<Value>, key: &K) -> Option<V> {
    ctx.get_value(&key_of(key), &TypeId::of::<V>())
        .map(|v| v.downcast_ref::<V>().expect("the stored type was checked").clone())
}

fn reported_error(ctx: &ContextImpl<Value>) -> Option<ContextError> {
    let guards: Vec<_> = ctx
        .lineage_vec()
        .iter()
        .map(|c| futures::executor::block_on(c.error_cell().read()))
        .collect();
    let observed: Vec<Option<ContextError>> = guards.iter().map(|g| **g).collect();
    first_error(&observed)
}

/// Records `reason` for `ctx` the way a cancel function or a timer does.
fn signal(ctx: &ContextImpl<Value>, reason: DoneReason) -> bool {
    let lineage = ctx.lineage_vec();
    let mut own = futures::executor::block_on(ctx.error_cell().write());
    let ancestors: Vec<_> = lineage[1..]
        .iter()
        .map(|c| futures::executor::block_on(c.error_cell().read()))
        .collect();
    let mut observed = vec![*own];
    observed.extend(ancestors.iter().map(|g| **g));
    let (next, notify) = settle(first_error(&observed), reason);
    if notify {
        *own = next;
    }
    notify
}

#[test]
fn test_background() {
    let ctx: Context<Value> = background();
    assert!(reported_error(&ctx).is_none());
    assert!(ctx.deadline().is_none());
    assert!(ctx.parent().is_none());
    assert_eq!(ctx.lineage_vec().len(), 1);
    assert_eq!(get::<_, String>(&ctx, &"anything"), None);
}

#[test]
fn test_cancel() {
    let ctx: Context<Value> = background();
    let (ctx, cancel) = with_cancel(&ctx);
    assert!(reported_error(&ctx).is_none());
    assert!(Arc::ptr_eq(cancel.context(), &ctx));
    assert!(signal(cancel.context(), DoneReason::CancelRequested));
    assert_eq!(reported_error(&ctx), Some(ContextError::Canceled));
}

#[test]
fn test_cancel_twice_changes_nothing() {
    let root: Context<Value> = background();
    let (ctx, cancel) = with_cancel(&root);
    assert!(signal(cancel.context(), DoneReason::CancelRequested));
    assert!(!signal(cancel.context(), DoneReason::CancelRequested));
    assert!(!signal(&ctx, DoneReason::DeadlineReached));
    assert_eq!(reported_error(&ctx), Some(ContextError::Canceled));
    assert_eq!(reported_error(&root), None);
}

#[test]
fn test_deadline() {
    let ctx: Context<Value> = background();
    let deadline = Instant::now() + Duration::from_millis(50);
    let (ctx, _) = with_deadline(&ctx, deadline);
    assert!(reported_error(&ctx).is_none());
    assert_eq!(ctx.deadline(), Some(deadline));
    assert!(signal(&ctx, DoneReason::DeadlineReached));
    assert_eq!(reported_error(&ctx), Some(ContextError::DeadlineExceeded));
}

#[test]
fn test_timeout_sets_a_later_deadline() {
    let root: Context<Value> = background();
    let before = Instant::now();
    let (ctx, cancel) = with_timeout(&root, Duration::from_secs(1)).expect("representable");
    let deadline = ctx.deadline().expect("a deadline is set");
    assert!(deadline >= before + Duration::from_secs(1));
    assert!(deadline <= Instant::now() + Duration::from_secs(1));
    assert!(Arc::ptr_eq(cancel.context(), &ctx));
    assert!(Arc::ptr_eq(ctx.parent().unwrap(), &root));
    assert!(root.deadline().is_none());
}

#[test]
fn test_timeout_beyond_representable_time() {
    let root: Context<Value> = background();
    assert!(with_timeout(&root, Duration::MAX).is_none());
}

#[test]
fn test_value() {
    let ctx: Context<Value> = background();
    let ctx = put(&ctx, "test_key", "test_value".to_string());
    assert_eq!(get::<_, String>(&ctx, &"test_key"), Some("test_value".to_string()));
}

#[test]
fn test_multiple_values() {
    let ctx: Context<Value> = background();
    let ctx = put(&ctx, "str_key", "test".to_string());
    let ctx = put(&ctx, 42_i32, 42_i64);
    let ctx = put(&ctx, ("bool".to_string(),), true);
    assert_eq!(get::<_, String>(&ctx, &"str_key"), Some("test".to_string()));
    assert_eq!(get::<_, i64>(&ctx, &42_i32), Some(42_i64));
    assert_eq!(get::<_, bool>(&ctx, &("bool".to_string(),)), Some(true));
}

#[test]
fn test_same_type_different_keys() {
    let ctx: Context<Value> = background();
    let ctx = put(&ctx, "key1", "first".to_string());
    let ctx = put(&ctx, "key2", "second".to_string());
    assert_eq!(get::<_, String>(&ctx, &"key1"), Some("first".to_string()));
    assert_eq!(get::<_, String>(&ctx, &"key2"), Some("second".to_string()));
}

#[test]
fn test_nested_contexts() {
    let root: Context<Value> = background();
    let root = put(&root, "root_key", "root_value".to_string());
    let child = put(&root, "child_key", "child_value".to_string());
    let deadline = Instant::now() + Duration::from_secs(1);
    let (grandchild, _) = with_deadline(&child, deadline);
    let grandchild = put(&grandchild, "grandchild_key", "grandchild_value".to_string());

    assert_eq!(get::<_, String>(&grandchild, &"root_key"), Some("root_value".to_string()));
    assert_eq!(get::<_, String>(&grandchild, &"child_key"), Some("child_value".to_string()));
    assert_eq!(get::<_, String>(&grandchild, &"grandchild_key"), Some("grandchild_value".to_string()));

    assert_eq!(get::<_, String>(&child, &"root_key"), Some("root_value".to_string()));
    assert_eq!(get::<_, String>(&child, &"child_key"), Some("child_value".to_string()));
    assert_eq!(get::<_, String>(&child, &"grandchild_key"), None);

    assert_eq!(grandchild.deadline(), Some(deadline));
    assert!(child.deadline().is_none());
    assert_eq!(grandchild.lineage_vec().len(), 5);
}

#[test]
fn test_nested_tasks_with_context() {
    let mut current: Context<Value> = background();
    let mut expected: Vec<i32> = Vec::new();
    for i in 0..=3 {
        current = put(&current, format!("level_{}", i), i);
        expected.push(i);
        let mut values = Vec::new();
        for level in 0..=i {
            if let Some(v) = get::<_, i32>(&current, &format!("level_{}", level)) {
                values.push(v);
            }
        }
        assert_eq!(values, expected);
    }
}

#[test]
fn test_nearest_value_hides_the_ones_above() {
    let root: Context<Value> = background();
    let outer = put(&root, "k", 1_i32);
    let inner = put(&outer, "k", 2_i32);
    assert_eq!(get::<_, i32>(&inner, &"k"), Some(2));
    assert_eq!(get::<_, i32>(&outer, &"k"), Some(1));
}

#[test]
fn test_value_of_another_type_is_not_returned() {
    let root: Context<Value> = background();
    let outer = put(&root, "k", 7_i64);
    let inner = put(&outer, "k", "seven".to_string());
    assert_eq!(get::<_, i64>(&inner, &"k"), Some(7));
    assert_eq!(get::<_, String>(&inner, &"k"), Some("seven".to_string()));
    assert_eq!(get::<_, bool>(&inner, &"k"), None);
}

#[test]
fn test_keys_of_different_types_do_not_match() {
    let root: Context<Value> = background();
    let ctx = put(&root, 5_u32, "five".to_string());
    assert_eq!(get::<_, String>(&ctx, &5_u32), Some("five".to_string()));
    assert_eq!(get::<_, String>(&ctx, &5_i32), None);
    let a = key_of(&5_u32);
    let b = TypedKey::new(bincode::serialize(&5_u32).unwrap(), TypeId::of::<i32>());
    assert!(a.matches(&key_of(&5_u32)));
    assert!(!a.matches(&b));
    assert!(!a.matches(&key_of(&6_u32)));
    assert!(!key_of(&"ab").matches(&key_of(&"abc")));
}

#[test]
fn test_values_pass_through_cancel_and_deadline_contexts() {
    let root: Context<Value> = background();
    let root = put(&root, "key", "parent_value".to_string());
    let (canceled, _) = with_cancel(&root);
    let (timed, _) = with_deadline(&canceled, Instant::now());
    assert_eq!(get::<_, String>(&timed, &"key"), Some("parent_value".to_string()));
    assert!(canceled.deadline().is_none());
}

#[test]
fn test_cancel_reaches_descendants() {
    let root: Context<Value> = background();
    let root = put(&root, "key", "value".to_string());
    let (ctx, cancel) = with_cancel(&root);
    let (ctx, _) = with_deadline(&ctx, Instant::now() + Duration::from_secs(5));
    let (ctx, _) = with_timeout(&ctx, Duration::from_secs(1)).unwrap();
    assert_eq!(reported_error(&ctx), None);
    assert!(signal(cancel.context(), DoneReason::CancelRequested));
    assert_eq!(reported_error(&ctx), Some(ContextError::Canceled));
    // The descendant's own deadline passing later does not change what it reports.
    assert!(!signal(&ctx, DoneReason::DeadlineReached));
    assert_eq!(reported_error(&ctx), Some(ContextError::Canceled));
    assert_eq!(reported_error(&root), None);
}

#[test]
fn test_deadline_of_a_child_does_not_reach_its_parent() {
    let root: Context<Value> = background();
    let (parent, _) = with_cancel(&root);
    let (child, _) = with_deadline(&parent, Instant::now());
    assert!(signal(&child, DoneReason::DeadlineReached));
    assert_eq!(reported_error(&child), Some(ContextError::DeadlineExceeded));
    assert_eq!(reported_error(&parent), None);
}

#[test]
fn test_settle() {
    assert_eq!(settle(None, DoneReason::CancelRequested), (Some(ContextError::Canceled), true));
    assert_eq!(settle(None, DoneReason::DeadlineReached), (Some(ContextError::DeadlineExceeded), true));
    assert_eq!(
        settle(Some(ContextError::DeadlineExceeded), DoneReason::CancelRequested),
        (Some(ContextError::DeadlineExceeded), false)
    );
    assert_eq!(
        settle(Some(ContextError::Canceled), DoneReason::DeadlineReached),
        (Some(ContextError::Canceled), false)
    );
}

#[test]
fn test_first_error() {
    assert_eq!(first_error(&vec![]), None);
    assert_eq!(first_error(&vec![None, None]), None);
    assert_eq!(
        first_error(&vec![None, Some(ContextError::DeadlineExceeded), Some(ContextError::Canceled)]),
        Some(ContextError::DeadlineExceeded)
    );
    assert_eq!(
        first_error(&vec![Some(ContextError::Canceled), Some(ContextError::DeadlineExceeded)]),
        Some(ContextError::Canceled)
    );
}

#[test]
fn test_error_messages() {
    assert_eq!(ContextError::Canceled.message(), "context canceled");
    assert_eq!(ContextError::DeadlineExceeded.message(), "deadline exceeded");
}

#[test]
fn test_computed_deadline() {
    let root: Context<Value> = background();
    assert!(ContextImpl::with_computed_deadline(&root, None).is_none());
    let at = Instant::now() + Duration::from_secs(3);
    let (ctx, cancel) = ContextImpl::with_computed_deadline(&root, Some(at)).expect("a deadline was given");
    assert_eq!(ctx.deadline(), Some(at));
    assert!(Arc::ptr_eq(ctx.parent().unwrap(), &root));
    assert!(Arc::ptr_eq(cancel.context(), &ctx));
    assert_eq!(reported_error(&ctx), None);
}

/// Reads a value as the application layer does: a `String` is also found
/// where a `&'static str` was stored.
fn read<K: serde::Serialize + 'static, V: Any + Clone>(ctx: &ContextImpl<Value>, key: &K) -> Option<V> {
    let accepted = readable_types(TypeId::of::<V>(), TypeId::of::<String>(), TypeId::of::<&'static str>());
    let entry = ctx.find_entry(&key_of(key), &accepted)?;
    if let Some(v) = entry.value.downcast_ref::<V>() {
        return Some(v.clone());
    }
    let text = entry.value.downcast_ref::<&'static str>()?;
    let text: Box<dyn Any> = Box::new(text.to_string());
    text.downcast::<V>().ok().map(|v| *v)
}

#[test]
fn test_text_literal_reads_as_string() {
    let root: Context<Value> = background();
    let root = put(&root, "root_key", "root_value");
    let child = put(&root, "child_key", "child_value");
    let deadline = Instant::now() + Duration::from_secs(1);
    let (grandchild, _) = with_deadline(&child, deadline);
    let grandchild = put(&grandchild, "grandchild_key", "grandchild_value");
    assert_eq!(read::<_, String>(&grandchild, &"root_key"), Some("root_value".to_string()));
    assert_eq!(read::<_, String>(&grandchild, &"child_key"), Some("child_value".to_string()));
    assert_eq!(read::<_, String>(&grandchild, &"grandchild_key"), Some("grandchild_value".to_string()));
    assert_eq!(read::<_, &'static str>(&grandchild, &"root_key"), Some("root_value"));
    assert_eq!(read::<_, String>(&child, &"grandchild_key"), None);
    assert_eq!(grandchild.deadline(), Some(deadline));
    assert!(child.deadline().is_none());
}

#[test]
fn test_nearest_text_wins_whichever_its_type() {
    let root: Context<Value> = background();
    let outer = put(&root, "k", "outer".to_string());
    let inner = put(&outer, "k", "inner");
    assert_eq!(read::<_, String>(&inner, &"k"), Some("inner".to_string()));
    assert_eq!(read::<_, String>(&outer, &"k"), Some("outer".to_string()));
    assert_eq!(read::<_, i32>(&inner, &"k"), None);
}

#[test]
fn test_readable_types() {
    let text = TypeId::of::<String>();
    let literal = TypeId::of::<&'static str>();
    assert_eq!(readable_types(text, text, literal), vec![text, literal]);
    assert_eq!(readable_types(TypeId::of::<i32>(), text, literal), vec![TypeId::of::<i32>()]);
}

#[test]
fn test_context_value_across_tasks() {
    let ctx: Context<Value> = background();
    let ctx = put(&ctx, "key", "parent_value".to_string());
    let clones: Vec<Context<Value>> = (0..3).map(|_| ctx.clone()).collect();
    for (i, c) in clones.iter().enumerate() {
        let result = match read::<_, String>(c, &"key") {
            Some(value) => format!("task_{}_got_{}", i, value),
            None => format!("task_{}_no_value", i),
        };
        assert_eq!(result, format!("task_{}_got_parent_value", i));
    }
}

#[test]
fn test_shared_text_value_across_clones() {
    let ctx: Context<Value> = background();
    let ctx = put(&ctx, "shared_key", "shared_value");
    let clones: Vec<Context<Value>> = (0..3).map(|_| ctx.clone()).collect();
    for (i, c) in clones.iter().enumerate() {
        let result = match read::<_, String>(c, &"shared_key") {
            Some(value) => format!("task_{}_got_{}", i, value),
            None => format!("task_{}_no_value", i),
        };
        assert_eq!(result, format!("task_{}_got_shared_value", i));
    }
}

#[test]
fn test_cancel_child_keeps_the_deadline() {
    let d = Instant::now() + Duration::from_secs(5);
    let root: Context<Value> = background();
    let (dctx, _) = with_deadline(&root, d);
    let (ctx, _c) = with_cancel(&dctx);
    assert_eq!(ctx.deadline(), Some(d));
    let (plain, _) = with_cancel(&root);
    assert!(plain.deadline().is_none());
}

#[test]
fn test_holds_key_of_type() {
    let root: Context<Value> = background();
    assert!(!root.holds_key_of_type(&TypeId::of::<&str>()));
    let ctx = put(&root, "k", 1_i32);
    let (child, _) = with_cancel(&ctx);
    assert!(child.holds_key_of_type(&TypeId::of::<&str>()));
    assert!(!child.holds_key_of_type(&TypeId::of::<i32>()));
    assert_eq!(key_of(&"k").type_id(), TypeId::of::<&str>());
}

#[test]
fn test_cancel_fn_clones_share_one_context() {
    let root: Context<Value> = background();
    let (ctx, cancel) = with_cancel(&root);
    let other = cancel.clone();
    assert!(Arc::ptr_eq(other.context(), &ctx));
    assert!(signal(other.context(), DoneReason::CancelRequested));
    assert_eq!(reported_error(&ctx), Some(ContextError::Canceled));
    assert!(!signal(cancel.context(), DoneReason::CancelRequested));
    assert_eq!(reported_error(&ctx), Some(ContextError::Canceled));
    assert_eq!(reported_error(&root), None);
}
