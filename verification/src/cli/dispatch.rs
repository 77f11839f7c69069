//! What a command line comes to: a task of a daemon, a question to it, work on the local store,
//! or a refusal.
use crate::cli::remote::JobRequest;
use crate::text;
use vstd::prelude::*;
use vstd::string::*;

verus! {

/// A command, with the options that decide where it is carried out.
#[derive(Debug)]
pub enum Command {
    /// To register, forget or question a daemon.
    Daemon,
    Import {
        profile: Option<String>,
        source: Option<usize>,
        dry_run: bool,
        include_feeds: bool,
        include_orphans: bool,
        detach: bool,
    },
    Index { detach: bool },
    Thread { detach: bool },
    Source,
    Search,
    Stats,
    Contacts,
    Send { account: Option<i64>, flush: bool },
    Outbox,
    Account,
    Sync { account: Option<i64> },
    Doctor,
}

/// Where a command is carried out.
#[derive(Debug)]
pub enum Way {
    /// As a task of the daemon.
    Job(JobRequest<'static>),
    /// By asking the daemon.
    Ask,
    /// On the local store.
    Here,
    Refused(&'static str),
}

/// What touches an account, a secret or the files of a store stays on the machine that holds
/// them.
pub open spec fn stays_home(command: Command) -> bool {
    match command {
        Command::Contacts => true,
        Command::Send { .. } => true,
        Command::Outbox => true,
        Command::Account => true,
        Command::Doctor => true,
        _ => false,
    }
}

/// Why a command that stays at home is not carried out from afar.
pub open spec fn home_refusal(command: Command) -> Seq<char> {
    match command {
        Command::Contacts =>
            "le carnet vit dans le store du démon : c'est lui qui le reconstruit. Lancer \n             `mail contacts` sur la machine du démon, sans --daemon."@,
        Command::Send { .. } | Command::Outbox =>
            "l'envoi vit du côté du démon : c'est son trousseau qui porte le secret et son \n             store qui porte la file d'envoi. Lancer `mail send` sur la machine du démon, \n             sans --daemon."@,
        Command::Account =>
            "ce qui touche à un compte vit du côté du démon : c'est lui qui se connecte au serveur IMAP, donc c'est son trousseau qui porte le secret. Lancer `mail account …` sur la machine du démon, sans --daemon.\n\n`mail sync --daemon` marche, en revanche : la synchronisation est une tâche de fond du démon, qui lit son propre trousseau."@,
        _ =>
            "`doctor` inspecte les blobs, les orphelins et la dérive de l'index : ça demande un accès au store, pas une API. L'exposer voudrait dire ouvrir un chemin de lecture arbitraire dans le stockage. Lancer la commande sur la machine du démon, sans --daemon."@,
    }
}

/// The task that a command starts at a daemon, where it starts one.
pub open spec fn starts(command: Command, job: JobRequest) -> bool {
    match command {
        Command::Import { profile, source, dry_run, include_feeds, include_orphans, detach } => {
            &&& job.kind@ == "import"@
            &&& job.account is None
            &&& job.source == source
            &&& job.dry_run == dry_run
            &&& job.include_feeds == include_feeds
            &&& job.include_orphans == include_orphans
            &&& job.follow == !detach
        },
        Command::Index { detach } => plain_job(job, "index"@, None) && job.follow == !detach,
        Command::Thread { detach } => plain_job(job, "thread"@, None) && job.follow == !detach,
        Command::Sync { account } => plain_job(job, "sync"@, account) && job.follow,
        _ => false,
    }
}

/// A task without the options of an import.
pub open spec fn plain_job(job: JobRequest, kind: Seq<char>, account: Option<i64>) -> bool {
    &&& job.kind@ == kind
    &&& job.account == account
    &&& job.source is None
    &&& !job.dry_run
    &&& !job.include_feeds
    &&& !job.include_orphans
}

fn plain(kind: &'static str, account: Option<i64>, follow: bool) -> (r: JobRequest<'static>)
    ensures
        plain_job(r, kind@, account),
        r.follow == follow,
{
    JobRequest {
        kind,
        account,
        source: None,
        dry_run: false,
        include_feeds: false,
        include_orphans: false,
        follow,
    }
}

/// Where a command is carried out when a daemon is named.
pub fn remote(command: &Command) -> (r: Way)
    ensures
        match r {
            Way::Job(job) => starts(*command, job),
            Way::Ask => *command is Daemon || *command is Source || *command is Search
                || *command is Stats,
            Way::Refused(why) => stays_home(*command) && why@ == home_refusal(*command),
            Way::Here => false,
        },
        *command is Import || *command is Index || *command is Thread || *command is Sync
            <==> r is Job,
{
    match command {
        Command::Daemon => Way::Ask,
        Command::Source => Way::Ask,
        Command::Search => Way::Ask,
        Command::Stats => Way::Ask,
        Command::Import { profile: _, source, dry_run, include_feeds, include_orphans, detach } => {
            Way::Job(
                JobRequest {
                    kind: "import",
                    account: None,
                    source: *source,
                    dry_run: *dry_run,
                    include_feeds: *include_feeds,
                    include_orphans: *include_orphans,
                    follow: !*detach,
                },
            )
        },
        Command::Index { detach } => Way::Job(plain("index", None, !*detach)),
        Command::Thread { detach } => Way::Job(plain("thread", None, !*detach)),
        Command::Sync { account } => Way::Job(plain("sync", *account, true)),
        Command::Contacts => Way::Refused(
            "le carnet vit dans le store du démon : c'est lui qui le reconstruit. Lancer \n             `mail contacts` sur la machine du démon, sans --daemon.",
        ),
        Command::Send { .. } => Way::Refused(
            "l'envoi vit du côté du démon : c'est son trousseau qui porte le secret et son \n             store qui porte la file d'envoi. Lancer `mail send` sur la machine du démon, \n             sans --daemon.",
        ),
        Command::Outbox => Way::Refused(
            "l'envoi vit du côté du démon : c'est son trousseau qui porte le secret et son \n             store qui porte la file d'envoi. Lancer `mail send` sur la machine du démon, \n             sans --daemon.",
        ),
        Command::Account => Way::Refused(
            "ce qui touche à un compte vit du côté du démon : c'est lui qui se connecte au serveur IMAP, donc c'est son trousseau qui porte le secret. Lancer `mail account …` sur la machine du démon, sans --daemon.\n\n`mail sync --daemon` marche, en revanche : la synchronisation est une tâche de fond du démon, qui lit son propre trousseau.",
        ),
        Command::Doctor => Way::Refused(
            "`doctor` inspecte les blobs, les orphelins et la dérive de l'index : ça demande un accès au store, pas une API. L'exposer voudrait dire ouvrir un chemin de lecture arbitraire dans le stockage. Lancer la commande sur la machine du démon, sans --daemon.",
        ),
    }
}

/// What is said, before a task starts, of an option that a daemon ignores: silence would let the
/// user believe that the path is used.
pub fn note(command: &Command) -> (r: Option<&'static str>)
    ensures
        text::opt_str(r) == if *command matches Command::Import { profile: Some(_), .. } {
            Some(
                "Note : --profile est ignoré avec --daemon. Les profils importables sont déclarés par l'opérateur du démon ; voir `mail daemon status`."@,
            )
        } else {
            None
        },
{
    match command {
        Command::Import { profile: Some(_), .. } => Some(
            "Note : --profile est ignoré avec --daemon. Les profils importables sont déclarés par l'opérateur du démon ; voir `mail daemon status`.",
        ),
        _ => None,
    }
}

/// Why a command is refused when no daemon is named, where it is.
pub open spec fn local_refusal(command: Command) -> Option<Seq<char>> {
    match command {
        Command::Daemon => Some(
            "`daemon` a besoin de savoir de quel démon on parle : ajouter --daemon <hôte>."@,
        ),
        Command::Import { profile: None, .. } => Some(
            "chemin du profil requis en local : --profile <chemin>, ou MAILCORE_TB_PROFILE"@,
        ),
        Command::Send { account: None, flush: false } => Some(
            "`--account` est obligatoire sans `--flush`"@,
        ),
        _ => None,
    }
}

/// Where a command is carried out when no daemon is named.
pub fn local(command: &Command) -> (r: Way)
    ensures
        match local_refusal(*command) {
            Some(why) => r is Refused && r->Refused_0@ == why,
            None => r is Here,
        },
{
    match command {
        Command::Daemon => Way::Refused(
            "`daemon` a besoin de savoir de quel démon on parle : ajouter --daemon <hôte>.",
        ),
        Command::Import { profile: None, .. } => Way::Refused(
            "chemin du profil requis en local : --profile <chemin>, ou MAILCORE_TB_PROFILE",
        ),
        Command::Send { account: None, flush: false } => Way::Refused(
            "`--account` est obligatoire sans `--flush`",
        ),
        _ => Way::Here,
    }
}

/// No command that starts a task at a daemon is one that stays at home.
pub proof fn no_task_leaves_home(command: Command, job: JobRequest)
    requires
        starts(command, job),
    ensures
        !stays_home(command),
{
}

} // verus!
