use engine::player::Employee;
use engine::tiles::{JobMarket, JobMarketEvent};

#[test]
fn testJobMarket1() {
    let mut market = JobMarket::new(1);
    for _ in 0..5 {
        assert_eq!(market.addEmployee(Employee::Engineer), JobMarketEvent::NoEvent);
    }
    assert_eq!(market.addEmployee(Employee::Engineer), JobMarketEvent::RefillCowMarket);
    for _ in 0..2 {
        assert_eq!(market.addEmployee(Employee::Cowboy), JobMarketEvent::NoEvent);
    }
    assert_eq!(market.addEmployee(Employee::Cowboy), JobMarketEvent::RefillCowMarket);
    for _ in 0..2 {
        assert_eq!(market.addEmployee(Employee::Cowboy), JobMarketEvent::NoEvent);
    }
    assert_eq!(market.addEmployee(Employee::Cowboy), JobMarketEvent::FinalRound);

    let eng_salaries = vec![5, 6, 7, 9];
    let eng_found = market.findEmployees(Employee::Engineer);
    let cowboy_salaries = vec![4, 5, 6, 8, 10];
    let cowboy_found = market.findEmployees(Employee::Cowboy);
    let craft_salaries = Vec::<i32>::new();
    let craft_found = market.findEmployees(Employee::Craftsman);
    for (truth, check) in [
        (eng_salaries, eng_found),
        (cowboy_salaries, cowboy_found),
        (craft_salaries, craft_found),
    ] {
        assert_eq!(truth.len(), check.len());
        for i in 0..truth.len() {
            assert_eq!(truth[i], check[i].0);
        }
    }
    assert_eq!(market.hireEmployee(Employee::Engineer, 5), Ok(()));
    assert_ne!(market.hireEmployee(Employee::Engineer, 5), Ok(()));
}

#[test]
fn testJobMarket3() {
    let mut market = JobMarket::new(3);
    for _ in 0..17 {
        assert_eq!(market.addEmployee(Employee::Engineer), JobMarketEvent::NoEvent);
    }
    assert_eq!(market.addEmployee(Employee::Engineer), JobMarketEvent::RefillCowMarket);
    for _ in 0..8 {
        assert_eq!(market.addEmployee(Employee::Cowboy), JobMarketEvent::NoEvent);
    }
    assert_eq!(market.addEmployee(Employee::Cowboy), JobMarketEvent::RefillCowMarket);
    for _ in 0..8 {
        assert_eq!(market.addEmployee(Employee::Cowboy), JobMarketEvent::NoEvent);
    }
    assert_eq!(market.addEmployee(Employee::Cowboy), JobMarketEvent::FinalRound);

    let eng_salaries = vec![5, 6, 7, 9];
    let eng_found = market.findEmployees(Employee::Engineer);
    let cowboy_salaries = vec![4, 5, 6, 8, 10];
    let cowboy_found = market.findEmployees(Employee::Cowboy);
    let craft_salaries = Vec::<i32>::new();
    let craft_found = market.findEmployees(Employee::Craftsman);
    for (truth, check) in [
        (eng_salaries, eng_found),
        (cowboy_salaries, cowboy_found),
        (craft_salaries, craft_found),
    ] {
        assert_eq!(truth.len(), check.len());
        for i in 0..truth.len() {
            assert_eq!(truth[i], check[i].0);
        }
    }
    for _ in 0..3 {
        assert_eq!(market.hireEmployee(Employee::Engineer, 5), Ok(()));
    }
    assert_ne!(market.hireEmployee(Employee::Engineer, 5), Ok(()));
}
