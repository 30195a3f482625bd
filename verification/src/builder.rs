//! How a client is set up before the server is started.

use vstd::prelude::*;

verus! {

/// Where a test keeps the files of the server.
#[derive(Debug, PartialEq, Eq)]
pub struct TestContext {
    deno_dir: String,
}

impl TestContext {
    /// The context whose directory has the URI `deno_dir`.
    pub fn new(deno_dir: &str) -> (r: TestContext)
        ensures
            r.deno_dir_uri() == deno_dir@,
    {
        TestContext { deno_dir: deno_dir.to_owned() }
    }

    /// The URI of the directory.
    pub closed spec fn deno_dir_uri(&self) -> Seq<char> {
        self.deno_dir@
    }

    /// The URI of the directory.
    pub fn deno_dir(&self) -> (r: &str)
        ensures
            r@ == self.deno_dir_uri(),
    {
        self.deno_dir.as_str()
    }
}

impl Clone for TestContext {
    fn clone(&self) -> (r: Self)
        ensures
            r.deno_dir_uri() == self.deno_dir_uri(),
    {
        TestContext { deno_dir: self.deno_dir.clone() }
    }
}

/// How the server is started.
#[derive(Debug, PartialEq, Eq)]
pub struct ServerCommand {
    /// The path of the executable; `None` for the default one.
    pub program: Option<String>,
    /// The arguments.
    pub args: Vec<String>,
    /// The variables that are added to the environment, each with its value.
    pub env: Vec<(String, String)>,
    /// Whether the error stream of the server is shown rather than dropped.
    /// The other two streams are pipes to the client.
    pub stderr_shown: bool,
}

/// The settings of a client that is yet to be built.
pub struct LspClientBuilder {
    print_stderr: bool,
    deno_exe: Option<String>,
    context: Option<TestContext>,
}

/// The settings that a [`LspClientBuilder`] holds.
pub ghost struct LspClientBuilderView {
    /// Whether the server's error stream is shown.
    pub print_stderr: bool,
    /// The path of the server's executable, where one was chosen.
    pub deno_exe: Option<Seq<char>>,
    /// The URI of the directory of the chosen context.
    pub context: Option<Seq<char>>,
}

impl View for LspClientBuilder {
    type V = LspClientBuilderView;

    closed spec fn view(&self) -> LspClientBuilderView {
        LspClientBuilderView {
            print_stderr: self.print_stderr,
            deno_exe: match self.deno_exe {
                Some(path) => Some(path@),
                None => None,
            },
            context: match self.context {
                Some(context) => Some(context.deno_dir_uri()),
                None => None,
            },
        }
    }
}

impl LspClientBuilder {
    /// The settings to start from: the error stream hidden, the executable
    /// and the context left to their defaults.
    pub fn new() -> (r: LspClientBuilder)
        ensures
            r@ == (LspClientBuilderView { print_stderr: false, deno_exe: None, context: None }),
    {
        LspClientBuilder { print_stderr: false, deno_exe: None, context: None }
    }

    /// Chooses the executable of the server.
    pub fn deno_exe(&mut self, exe_path: &str) -> (r: &mut Self)
        ensures
            (*r)@ == (LspClientBuilderView { deno_exe: Some(exe_path@), ..old(self)@ }),
            *final(self) == *final(r),
    {
        self.deno_exe = Some(exe_path.to_owned());
        self
    }

    /// Has the server's error stream shown.
    pub fn print_stderr(&mut self) -> (r: &mut Self)
        ensures
            (*r)@ == (LspClientBuilderView { print_stderr: true, ..old(self)@ }),
            *final(self) == *final(r),
    {
        self.print_stderr = true;
        self
    }

    /// Chooses the context of the client.
    pub fn set_test_context(&mut self, test_context: &TestContext) -> (r: &mut Self)
        ensures
            (*r)@ == (LspClientBuilderView {
                context: Some(test_context.deno_dir_uri()),
                ..old(self)@
            }),
            *final(self) == *final(r),
    {
        self.context = Some(test_context.clone());
        self
    }

    /// The path of the chosen executable; `None` for the default one.
    pub fn exe_path(&self) -> (r: Option<&str>)
        ensures
            match r {
                Some(path) => self@.deno_exe == Some(path@),
                None => self@.deno_exe is None,
            },
    {
        match &self.deno_exe {
            Some(path) => Some(path.as_str()),
            None => None,
        }
    }

    /// Whether the server's error stream is shown.
    pub fn shows_stderr(&self) -> (r: bool)
        ensures
            r == self@.print_stderr,
    {
        self.print_stderr
    }

    /// How the server is started: the executable with the one argument
    /// `lsp`, its directory and the registry named in the environment.
    pub fn command(&self, deno_dir: &str, npm_registry: &str) -> (r: ServerCommand)
        ensures
            match r.program {
                Some(path) => self@.deno_exe == Some(path@),
                None => self@.deno_exe is None,
            },
            r.args@.len() == 1,
            r.args@[0]@ == "lsp"@,
            r.env@.len() == 2,
            r.env@[0].0@ == "DENO_DIR"@,
            r.env@[0].1@ == deno_dir@,
            r.env@[1].0@ == "NPM_CONFIG_REGISTRY"@,
            r.env@[1].1@ == npm_registry@,
            r.stderr_shown == self@.print_stderr,
    {
        let mut args: Vec<String> = Vec::new();
        args.push("lsp".to_owned());
        let mut env: Vec<(String, String)> = Vec::new();
        env.push(("DENO_DIR".to_owned(), deno_dir.to_owned()));
        env.push(("NPM_CONFIG_REGISTRY".to_owned(), npm_registry.to_owned()));
        ServerCommand {
            program: match &self.deno_exe {
                Some(path) => Some(path.clone()),
                None => None,
            },
            args,
            env,
            stderr_shown: self.print_stderr,
        }
    }

    /// The context of the client: the chosen one, or `fallback` where none
    /// was chosen.
    pub fn context_or(&self, fallback: TestContext) -> (r: TestContext)
        ensures
            r.deno_dir_uri() == match self@.context {
                Some(uri) => uri,
                None => fallback.deno_dir_uri(),
            },
    {
        match &self.context {
            Some(context) => context.clone(),
            None => fallback,
        }
    }
}

} // verus!
