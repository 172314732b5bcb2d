use vstd::prelude::*;

verus! {

/// Where the store is, and how many connections its pool may hold.
#[derive(Debug)]
pub struct Database {
    pub url: String,
    pub pool_size: u32,
}

impl Clone for Database {
    fn clone(&self) -> (copy: Self)
        ensures
            copy.url@ == self.url@,
            copy.pool_size == self.pool_size,
    {
        Database { url: self.url.clone(), pool_size: self.pool_size }
    }
}

impl Default for Database {
    fn default() -> (database: Self)
        ensures
            database.url@ == "sqlite://./tk.sqlite"@,
            database.pool_size == 8,
    {
        Database { url: "sqlite://./tk.sqlite".to_owned(), pool_size: 8 }
    }
}

/// The address the service listens on.
#[derive(Debug)]
pub struct Api {
    pub addr: String,
    pub port: u16,
}

impl Clone for Api {
    fn clone(&self) -> (copy: Self)
        ensures
            copy.addr@ == self.addr@,
            copy.port == self.port,
    {
        Api { addr: self.addr.clone(), port: self.port }
    }
}

impl Default for Api {
    fn default() -> (api: Self)
        ensures
            api.addr@ == "127.0.0.1"@,
            api.port == 8080,
    {
        Api { addr: "127.0.0.1".to_owned(), port: 8080 }
    }
}

/// The one administrator's credentials.
#[derive(Debug)]
pub struct Admin {
    pub username: String,
    pub password: String,
}

impl Clone for Admin {
    fn clone(&self) -> (copy: Self)
        ensures
            copy.username@ == self.username@,
            copy.password@ == self.password@,
    {
        Admin { username: self.username.clone(), password: self.password.clone() }
    }
}

/// The resolved configuration. The library only reads it.
#[derive(Debug)]
pub struct Config {
    pub debug: bool,
    pub database: Database,
    pub api: Api,
    pub admin: Admin,
}

impl Clone for Config {
    fn clone(&self) -> (copy: Self)
        ensures
            copy.debug == self.debug,
            copy.database.url@ == self.database.url@,
            copy.database.pool_size == self.database.pool_size,
            copy.api.addr@ == self.api.addr@,
            copy.api.port == self.api.port,
            copy.admin.username@ == self.admin.username@,
            copy.admin.password@ == self.admin.password@,
    {
        Config {
            debug: self.debug,
            database: self.database.clone(),
            api: self.api.clone(),
            admin: self.admin.clone(),
        }
    }
}

impl Default for Config {
    /// Debug mode is off, the store and the address are the defaults of their
    /// own types, and the administrator's credentials are still empty.
    fn default() -> (config: Self)
        ensures
            !config.debug,
            config.database.url@ == "sqlite://./tk.sqlite"@,
            config.database.pool_size == 8,
            config.api.addr@ == "127.0.0.1"@,
            config.api.port == 8080,
            config.admin.username@ == Seq::<char>::empty(),
            config.admin.password@ == Seq::<char>::empty(),
    {
        Config {
            debug: false,
            database: Database::default(),
            api: Api::default(),
            admin: Admin { username: String::new(), password: String::new() },
        }
    }
}

} // verus!
