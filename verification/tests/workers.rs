use spiceai::workers::{
    load_worker, same_config, worker_diff, worker_type, ModelWorker, SpiceWorker, WorkerChange,
    WorkerConfig, WorkerError, WorkerRegistry,
};

fn config(name: &str, from: &str) -> WorkerConfig {
    WorkerConfig {
        name: name.to_string(),
        from: from.to_string(),
        role: "assistant".to_string(),
        description: None,
        params: vec![("temperature".to_string(), "0.2".to_string())],
        depends_on: vec!["db".to_string()],
    }
}

#[test]
fn worker_types() {
    assert_eq!(worker_type("models:openai"), "models");
    assert_eq!(worker_type("model"), "model");
    assert_eq!(worker_type(":x"), "");
    assert_eq!(worker_type("a:b:c"), "a");
}

#[test]
fn load_model_worker() {
    let w = load_worker(&config("w1", "models:openai:gpt-4o")).expect("a model worker");
    assert_eq!(w.from, "openai:gpt-4o");
    assert_eq!(w.name(), "w1");
    assert_eq!(w.role(), "assistant");
    assert_eq!(w.description(), Some(String::new()));
    assert_eq!(w.params(), &vec![("temperature".to_string(), "0.2".to_string())]);
    assert_eq!(w.depends_on(), &vec!["db".to_string()]);
}

#[test]
fn load_worker_errors() {
    assert_eq!(
        load_worker(&config("w", "models")).unwrap_err(),
        WorkerError::InvalidWorkerConfig {
            message: "Model source not specified in 'from' field. Format should be 'models:<model-source>'"
                .to_string()
        }
    );
    assert_eq!(
        load_worker(&config("w", ":openai")).unwrap_err(),
        WorkerError::InvalidWorkerConfig { message: "Worker type not specified in 'from' field".to_string() }
    );
    let err = load_worker(&config("w", "agent:x")).unwrap_err();
    assert_eq!(err, WorkerError::UnsupportedWorkerType { worker_type: "agent".to_string() });
    assert_eq!(err.to_string(), "Unsupported worker type: agent");
}

#[test]
fn model_worker_from_config() {
    let mut c = config("w", "model:hf");
    c.description = Some("d".to_string());
    let w = ModelWorker::from_config(&c);
    assert_eq!(w.from, "hf");
    assert_eq!(w.description, Some("d".to_string()));
    let w = ModelWorker::from_config(&config("w", "openai"));
    assert_eq!(w.from, "openai");
    assert_eq!(w.description, None);
}

#[test]
fn builders() {
    let w = ModelWorker::new("openai".to_string(), "n".to_string(), "r".to_string())
        .with_description("desc".to_string())
        .with_params(vec![("k".to_string(), "\"v\"".to_string())])
        .with_depends_on(vec!["x".to_string()]);
    assert_eq!(w.description, Some("desc".to_string()));
    assert_eq!(w.params.len(), 1);
    assert_eq!(w.depends_on, vec!["x".to_string()]);
}

#[test]
fn registry_is_a_map_by_name() {
    let mut reg: WorkerRegistry<ModelWorker> = WorkerRegistry::new();
    reg.add(load_worker(&config("a", "models:x")).unwrap());
    reg.add(load_worker(&config("b", "models:y")).unwrap());
    reg.add(load_worker(&config("a", "models:z")).unwrap());
    assert_eq!(reg.get("a").map(|w| w.from.clone()), Some("z".to_string()));
    let names: Vec<String> = reg.all().iter().map(|(n, _)| (*n).clone()).collect();
    assert_eq!(names, vec!["a".to_string(), "b".to_string()]);
    let removed = reg.remove("a").expect("a was registered");
    assert_eq!(removed.from, "z");
    assert!(reg.get("a").is_none());
    assert!(reg.remove("a").is_none());
    assert_eq!(reg.all().len(), 1);
}

#[test]
fn params_compare_as_a_map() {
    let mut a = config("w", "models:x");
    a.params = vec![("p".to_string(), "1".to_string()), ("q".to_string(), "2".to_string())];
    let mut b = config("w", "models:x");
    b.params = vec![("q".to_string(), "2".to_string()), ("p".to_string(), "1".to_string())];
    assert!(same_config(&a, &b));
    b.params[0].1 = "3".to_string();
    assert!(!same_config(&a, &b));
}

#[test]
fn diff_loads_updates_and_removes() {
    let current = vec![config("keep", "models:x"), config("change", "models:x"), config("gone", "models:x")];
    let new = vec![config("change", "models:y"), config("keep", "models:x"), config("added", "models:z")];
    assert_eq!(
        worker_diff(&current, &new),
        vec![WorkerChange::Update(0), WorkerChange::Load(2), WorkerChange::Remove(2)]
    );
    assert_eq!(worker_diff(&new, &new), vec![]);
    assert_eq!(worker_diff(&vec![], &new), vec![WorkerChange::Load(0), WorkerChange::Load(1), WorkerChange::Load(2)]);
    assert_eq!(worker_diff(&current, &vec![]), vec![WorkerChange::Remove(0), WorkerChange::Remove(1), WorkerChange::Remove(2)]);
}

#[test]
fn applying_the_diff_leaves_the_new_workers() {
    let current = vec![config("keep", "models:x"), config("change", "models:x"), config("gone", "models:x")];
    let new = vec![config("change", "models:y"), config("keep", "models:x"), config("added", "models:z")];
    let mut reg: WorkerRegistry<ModelWorker> = WorkerRegistry::new();
    for c in &current {
        reg.add(load_worker(c).unwrap());
    }
    for change in worker_diff(&current, &new) {
        match change {
            WorkerChange::Load(i) | WorkerChange::Update(i) => {
                reg.remove(&new[i].name);
                reg.add(load_worker(&new[i]).unwrap());
            }
            WorkerChange::Remove(j) => {
                reg.remove(&current[j].name);
            }
        }
    }
    let mut names: Vec<String> = reg.all().iter().map(|(n, _)| (*n).clone()).collect();
    names.sort();
    assert_eq!(names, vec!["added".to_string(), "change".to_string(), "keep".to_string()]);
    assert_eq!(reg.get("change").map(|w| w.from.clone()), Some("y".to_string()));
}
