use knapsack::generator::generate;

#[test]
fn generated_password_has_three_of_each_class() {
    for _ in 0..50 {
        let p: Vec<char> = generate().chars().collect();
        assert_eq!(p.len(), 12);
        let symbols = "!@#$%&*?";
        assert_eq!(p.iter().filter(|c| symbols.contains(**c)).count(), 3);
        assert_eq!(p.iter().filter(|c| c.is_ascii_digit()).count(), 3);
        assert_eq!(p.iter().filter(|c| c.is_ascii_uppercase()).count(), 3);
        assert_eq!(p.iter().filter(|c| c.is_ascii_lowercase()).count(), 3);
        let mut sorted = p.clone();
        sorted.sort();
        sorted.dedup();
        assert_eq!(sorted.len(), 12);
    }
}

#[test]
fn generated_passwords_vary() {
    let a = generate();
    let mut differs = false;
    for _ in 0..20 {
        if generate() != a {
            differs = true;
        }
    }
    assert!(differs);
}
