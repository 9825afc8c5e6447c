use spiceai::token_registry::TokenProviderRegistry;

#[test]
fn databricks_key() {
    assert_eq!(
        TokenProviderRegistry::<u32>::databricks_m2m_key("client-1"),
        "databricks_m2m:client-1"
    );
}

#[test]
fn registered_provider_is_handed_out_again() {
    let mut reg: TokenProviderRegistry<u32> = TokenProviderRegistry::new();
    let key = TokenProviderRegistry::<u32>::databricks_m2m_key("a");
    assert_eq!(reg.get(&key), None);
    reg.insert(key.clone(), 7);
    reg.insert("databricks_m2m:b".to_string(), 8);
    assert_eq!(reg.get(&key), Some(&7));
    assert_eq!(reg.get("databricks_m2m:b"), Some(&8));
    reg.insert(key.clone(), 9);
    assert_eq!(reg.get(&key), Some(&9));
    assert_eq!(reg.providers.entries.len(), 2);
    assert_eq!(reg.get("databricks_m2m:c"), None);
}

#[test]
fn created_provider_is_registered_and_failure_leaves_registry() {
    let mut reg: TokenProviderRegistry<u32> = TokenProviderRegistry::new();
    let key = TokenProviderRegistry::<u32>::databricks_m2m_key("c1");
    assert_eq!(reg.insert_created::<String>(key.clone(), Err("boom".to_string())), Err("boom".to_string()));
    assert_eq!(reg.get(&key), None);
    assert_eq!(reg.insert_created::<String>(key.clone(), Ok(7)), Ok(()));
    assert_eq!(reg.get(&key), Some(&7));
}

#[test]
fn get_or_create_hands_out_one_provider_per_key() {
    fn get_or_create(reg: &mut TokenProviderRegistry<u32>, client: &str, created: Result<u32, String>) -> Result<u32, String> {
        let key = TokenProviderRegistry::<u32>::databricks_m2m_key(client);
        if let Some(p) = reg.get(&key) {
            return Ok(*p);
        }
        reg.insert_created(key.clone(), created)?;
        Ok(*reg.get(&key).unwrap())
    }
    let mut reg: TokenProviderRegistry<u32> = TokenProviderRegistry::new();
    assert_eq!(get_or_create(&mut reg, "c", Err("down".to_string())), Err("down".to_string()));
    assert_eq!(get_or_create(&mut reg, "c", Ok(1)), Ok(1));
    assert_eq!(get_or_create(&mut reg, "c", Ok(2)), Ok(1));
    assert_eq!(get_or_create(&mut reg, "c", Err("down".to_string())), Ok(1));
    assert_eq!(get_or_create(&mut reg, "d", Ok(3)), Ok(3));
}
