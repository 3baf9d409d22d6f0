use accord::rules::{tagged_field, validate_field, validate_record};
use accord::validators::{alphanumeric_dashes, contains, length, not_contain_any, range};
use accord::{Accord, Result as AccordResult, ValidatorResult};

type Rules<T> = Vec<Box<dyn Fn(&T) -> ValidatorResult>>;

struct Account {
    pub name: String,
    pub username: String,
    pub email: String,
    pub age: i8,
}

impl Accord for Account {
    fn validate(&self) -> AccordResult {
        let name: Rules<String> = vec![Box::new(length(1, 64))];
        let username: Rules<String> = vec![Box::new(alphanumeric_dashes())];
        let email: Rules<String> =
            vec![Box::new(length(5, 64)), Box::new(contains("@")), Box::new(contains("."))];
        let age: Rules<i8> = vec![Box::new(range(12, 127))];
        validate_record(vec![
            tagged_field("name", &self.name, &name),
            tagged_field("username", &self.username, &username),
            tagged_field("email", &self.email, &email),
            tagged_field("age", &self.age, &age),
        ])
    }
}

#[test]
fn account_main() {
    let okay = Account {
        name: "Test Test".to_string(),
        username: "my_radical-username".to_string(),
        email: "test@test.test".to_string(),
        age: 25,
    };

    let error = Account {
        name: "Test".to_string(),
        username: "wow what a radical username dude!!!!".to_string(),
        email: "testtest.test".to_string(),
        age: 11,
    };

    assert!(okay.validate().is_ok());
    assert!(error.validate().is_err());
}

struct Credentials {
    pub email: String,
    pub password: String,
}

impl Accord for Credentials {
    fn validate(&self) -> AccordResult {
        let email: Rules<String> =
            vec![Box::new(length(5, 64)), Box::new(contains("@")), Box::new(contains("."))];
        let password: Rules<String> =
            vec![Box::new(not_contain_any(&["1234", "admin", "password"]))];
        validate_record(vec![
            ("email".to_string(), validate_field(&self.email, &email)),
            ("password".to_string(), validate_field(&self.password, &password)),
        ])
    }
}

#[test]
fn credentials_main() {
    let a = Credentials {
        email: "test@test.test".to_string(),
        password: "lfdsfsfsfghdgdljddsjfkdlsf".to_string(),
    };

    let b = Credentials { email: "t".to_string(), password: "admin1234password".to_string() };

    assert!(a.validate().is_ok());
    assert!(b.validate().is_err());
}
