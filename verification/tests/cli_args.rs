use gsm::cli_args::Cli;
use gsm::cli_args::Commands;
use gsm::cli_args::EncryptArgs;
use gsm::cli_args::PushArgs;

#[test]
fn command_surface_holds_its_arguments() {
    let cli = Cli {
        command: Commands::Encrypt(EncryptArgs {
            file: "raw/prod.yaml".to_string(),
            output: None,
        }),
    };
    match cli.command {
        Commands::Encrypt(args) => {
            assert_eq!(args.file, "raw/prod.yaml");
            assert_eq!(args.output, None);
        }
        _ => panic!("wrong command"),
    }

    let push = Commands::Push(PushArgs {
        file: "prod.yaml".to_string(),
        api_url: "https://api.github.com".to_string(),
    });
    assert!(matches!(push, Commands::Push(_)));
}
