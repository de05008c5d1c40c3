use pg_dispatcher::cli::create_cli_app;
use pg_dispatcher::config::ChannelConfig;
use pg_dispatcher::config::ChannelConsumerConfig;
use pg_dispatcher::config::ChannelProducerConfig;
use pg_dispatcher::config::ChannelRedisConfig;
use pg_dispatcher::config::Config;
use pg_dispatcher::dispatcher::queue_set_name;
use pg_dispatcher::dispatcher::DispatcherPool;
use pg_dispatcher::store::KeySet;

#[test]
fn create_cli_app_test() {
    let args: Vec<String> = vec![
        "pg-dispatch".to_string(),
        "--config".to_string(),
        "/path/to/pgdispatcher.toml".to_string(),
    ];
    let matched = create_cli_app().config_arg.value_of(&args);

    assert_eq!("/path/to/pgdispatcher.toml", matched.unwrap());
}

#[test]
fn value_of_missing_flag_is_none() {
    let app = create_cli_app();
    let args: Vec<String> = vec!["pg-dispatch".to_string(), "--verbose".to_string()];
    assert!(app.config_arg.value_of(&args).is_none());
}

#[test]
fn value_of_flag_without_value_is_none() {
    let app = create_cli_app();
    let args: Vec<String> = vec!["pg-dispatch".to_string(), "--config".to_string()];
    assert!(app.config_arg.value_of(&args).is_none());
}

fn example_config() -> Config {
    Config {
        channels: vec![
            ChannelConfig {
                name: "payment_stream_producer".to_string(),
                producer: Some(ChannelProducerConfig {
                    listen_channel: "payment_stream".to_string(),
                    postgres_uri: "postgres://postgres@localhost:5432/payments".to_string(),
                }),
                consumer: Some(ChannelConsumerConfig {
                    workers: 4,
                    command: "sh test.sh".to_string(),
                }),
                redis: ChannelRedisConfig {
                    uri: "redis://rediskey@localhost:6973/0".to_string(),
                },
            },
            ChannelConfig {
                name: "payment_stream_consumer".to_string(),
                producer: None,
                consumer: Some(ChannelConsumerConfig {
                    workers: 4,
                    command: "sh test.sh".to_string(),
                }),
                redis: ChannelRedisConfig {
                    uri: "redis://rediskey@localhost:6973/0".to_string(),
                },
            },
        ],
    }
}

#[test]
fn dispatcher_pool_from_config() {
    let config = example_config();
    let dispatcher_pool = DispatcherPool::from_config(&config);
    let dispatchers = dispatcher_pool.pool;
    let dispatcher_both = &dispatchers[0];
    let dispatcher_consumer = &dispatchers[1];

    assert_eq!(dispatcher_both.config.consumer.is_some(), true);
    assert_eq!(dispatcher_both.config.producer.is_some(), true);
    assert_eq!(dispatcher_both.config.redis.uri, "redis://rediskey@localhost:6973/0");

    assert_eq!(dispatcher_consumer.config.consumer.is_some(), true);
    assert_eq!(dispatcher_consumer.config.producer.is_some(), false);
    assert_eq!(dispatcher_consumer.config.redis.uri, "redis://rediskey@localhost:6973/0");
}

#[test]
fn dispatcher_loop_selection_follows_config() {
    let config = example_config();
    let dispatcher_pool = DispatcherPool::from_config(&config);
    assert!(dispatcher_pool.pool[0].wants_producer());
    assert!(dispatcher_pool.pool[0].wants_consumer());
    assert!(!dispatcher_pool.pool[1].wants_producer());
    assert!(dispatcher_pool.pool[1].wants_consumer());
}

#[test]
fn queue_set_names_are_namespaced_by_channel() {
    let channel = "payment_stream".to_string();
    assert_eq!(queue_set_name(&channel, "pending_set"), "dispatcher:payment_stream:pending_set");
    assert_eq!(
        queue_set_name(&channel, "processing_set"),
        "dispatcher:payment_stream:processing_set",
    );
    assert_eq!(queue_set_name(&channel, "done_set"), "dispatcher:payment_stream:done_set");
}

#[test]
fn key_set_add_remove_diff() {
    let mut a = KeySet::new();
    let mut b = KeySet::new();
    assert!(a.add(&"x".to_string()));
    assert!(a.add(&"y".to_string()));
    assert!(!a.add(&"x".to_string()));
    assert!(b.add(&"y".to_string()));

    assert!(a.contains_key(&"x".to_string()));
    assert!(!b.contains_key(&"x".to_string()));

    let diff = a.diff(&b);
    assert_eq!(diff.len(), 1);
    assert_eq!(diff[0], "x");

    a.remove(&"x".to_string());
    assert!(!a.contains_key(&"x".to_string()));
    let diff = a.diff(&b);
    assert_eq!(diff.len(), 0);
}
